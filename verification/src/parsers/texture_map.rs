//! Texture-map statements: `maplib` filename lists and `usemap`
//! identifiers.

use vstd::prelude::*;
use crate::parsers::filename::{parse_filenames, parse_filenames_s};
use crate::parsers::identifier::{parse_identifier, parse_identifier_s};

verus! {

/// The bytes of `maplib`.
pub open spec fn maplib_tag() -> Seq<u8> {
    seq![109u8, 97u8, 112u8, 108u8, 105u8, 98u8]
}

/// The bytes of `.ppm`.
pub open spec fn ppm_ext() -> Seq<u8> {
    seq![46u8, 112u8, 112u8, 109u8]
}

/// The bytes of `usemap`.
pub open spec fn usemap_tag() -> Seq<u8> {
    seq![117u8, 115u8, 101u8, 109u8, 97u8, 112u8]
}

/// Parses a `maplib` line listing one or more `.ppm` filenames.
pub fn parse_map_filenames<'a>(input: &'a [u8]) -> (r: Option<(&'a [u8], Vec<&'a [u8]>)>)
    ensures
        r is Some <==> parse_filenames_s(maplib_tag(), ppm_ext(), input@) is Some,
        r is Some ==> (r->0).0@ == (parse_filenames_s(maplib_tag(), ppm_ext(), input@)->0).0
            && (r->0).1.deep_view() == (parse_filenames_s(maplib_tag(), ppm_ext(), input@)->0).1,
{
    let tag: [u8; 6] = [109, 97, 112, 108, 105, 98];
    let ext: [u8; 4] = [46, 112, 112, 109];
    proof {
        assert(tag@ =~= maplib_tag());
        assert(ext@ =~= ppm_ext());
    }
    parse_filenames(&tag, &ext, input)
}

/// Parses a `usemap` line naming a texture map.
pub fn parse_texture_map_identifier<'a>(input: &'a [u8]) -> (r: Option<(&'a [u8], &'a [u8])>)
    ensures
        r is Some <==> parse_identifier_s(usemap_tag(), input@) is Some,
        r is Some ==> (r->0).0@ == (parse_identifier_s(usemap_tag(), input@)->0).0 && (r->0).1@
            == (parse_identifier_s(usemap_tag(), input@)->0).1,
{
    let tag: [u8; 6] = [117, 115, 101, 109, 97, 112];
    proof {
        assert(tag@ =~= usemap_tag());
    }
    parse_identifier(&tag, input)
}

} // verus!
