//! Material statements: `mtllib` filename lists and `usemtl` identifiers.

use vstd::prelude::*;
use crate::parsers::filename::{parse_filenames, parse_filenames_s, recognize_filename,
    recognize_filename_s};
use crate::parsers::identifier::{parse_identifier, parse_identifier_s};

verus! {

/// The bytes of `mtllib`.
pub open spec fn mtllib_tag() -> Seq<u8> {
    seq![109u8, 116u8, 108u8, 108u8, 105u8, 98u8]
}

/// The bytes of `.mtl`.
pub open spec fn mtl_ext() -> Seq<u8> {
    seq![46u8, 109u8, 116u8, 108u8]
}

/// The bytes of `usemtl`.
pub open spec fn usemtl_tag() -> Seq<u8> {
    seq![117u8, 115u8, 101u8, 109u8, 116u8, 108u8]
}

/// Recognises one whitespace-delimited `.mtl` filename token.
pub fn recognize_material_filename<'a>(input: &'a [u8]) -> (r: Option<(&'a [u8], &'a [u8])>)
    ensures
        r is Some <==> recognize_filename_s(mtl_ext(), input@) is Some,
        r is Some ==> (r->0).0@ == input@.subrange(
            (recognize_filename_s(mtl_ext(), input@)->0).0,
            input@.len() as int,
        ),
        r is Some ==> (r->0).1@ == (recognize_filename_s(mtl_ext(), input@)->0).1,
{
    let ext: [u8; 4] = [46, 109, 116, 108];
    proof {
        assert(ext@ =~= mtl_ext());
    }
    recognize_filename(&ext, input)
}

/// Parses a `mtllib` line listing one or more `.mtl` filenames.
pub fn parse_material_filenames<'a>(input: &'a [u8]) -> (r: Option<(&'a [u8], Vec<&'a [u8]>)>)
    ensures
        r is Some <==> parse_filenames_s(mtllib_tag(), mtl_ext(), input@) is Some,
        r is Some ==> (r->0).0@ == (parse_filenames_s(mtllib_tag(), mtl_ext(), input@)->0).0
            && (r->0).1.deep_view() == (parse_filenames_s(mtllib_tag(), mtl_ext(), input@)->0).1,
{
    let tag: [u8; 6] = [109, 116, 108, 108, 105, 98];
    let ext: [u8; 4] = [46, 109, 116, 108];
    proof {
        assert(tag@ =~= mtllib_tag());
        assert(ext@ =~= mtl_ext());
    }
    parse_filenames(&tag, &ext, input)
}

/// Parses a `usemtl` line naming a material.
pub fn parse_material_identifier<'a>(input: &'a [u8]) -> (r: Option<(&'a [u8], &'a [u8])>)
    ensures
        r is Some <==> parse_identifier_s(usemtl_tag(), input@) is Some,
        r is Some ==> (r->0).0@ == (parse_identifier_s(usemtl_tag(), input@)->0).0 && (r->0).1@
            == (parse_identifier_s(usemtl_tag(), input@)->0).1,
{
    let tag: [u8; 6] = [117, 115, 101, 109, 116, 108];
    proof {
        assert(tag@ =~= usemtl_tag());
    }
    parse_identifier(&tag, input)
}

} // verus!
