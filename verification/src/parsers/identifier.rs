//! Keyword-introduced identifiers.

use vstd::prelude::*;
use crate::parsers::bytes::{lemma_run_len, run_len, scan, starts_with_at, tag_at, ByteClass};

verus! {

/// The exact language of `parse_identifier`: the keyword, whitespace,
/// then everything up to the line break (at least one byte), then the
/// line break and any further whitespace.
pub open spec fn parse_identifier_s(tag: Seq<u8>, s: Seq<u8>) -> Option<(Seq<u8>, Seq<u8>)> {
    if !tag_at(s, 0, tag) {
        None
    } else {
        let p = tag.len() + run_len(s, tag.len() as int, ByteClass::Whitespace);
        let l = run_len(s, p, ByteClass::NotCrlf);
        if l < 1 {
            None
        } else {
            let rest = p + l + run_len(s, p + l, ByteClass::Whitespace);
            Some((s.subrange(rest, s.len() as int), s.subrange(p, p + l)))
        }
    }
}

/// Parses `tag_string` followed by an identifier running to the end of
/// the line, returning `(remainder, identifier)`.
pub fn parse_identifier<'a>(tag_string: &[u8], input: &'a [u8]) -> (r: Option<(&'a [u8], &'a [u8])>)
    ensures
        r is Some <==> parse_identifier_s(tag_string@, input@) is Some,
        r is Some ==> (r->0).0@ == (parse_identifier_s(tag_string@, input@)->0).0 && (r->0).1@
            == (parse_identifier_s(tag_string@, input@)->0).1,
{
    if !starts_with_at(input, 0, tag_string) {
        return None;
    }
    proof {
        lemma_run_len(input@, tag_string@.len() as int, ByteClass::Whitespace);
    }
    let p = scan(input, tag_string.len(), ByteClass::Whitespace);
    proof {
        lemma_run_len(input@, p as int, ByteClass::NotCrlf);
    }
    let q = scan(input, p, ByteClass::NotCrlf);
    if q == p {
        return None;
    }
    proof {
        lemma_run_len(input@, q as int, ByteClass::Whitespace);
    }
    let rest = scan(input, q, ByteClass::Whitespace);
    Some((
        vstd::slice::slice_subrange(input, rest, input.len()),
        vstd::slice::slice_subrange(input, p, q),
    ))
}

} // verus!
