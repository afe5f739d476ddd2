//! End-of-line comments.

use vstd::prelude::*;
use crate::parsers::bytes::{lemma_run_len, run_len, scan, ByteClass};

verus! {

/// The exact language of an end-of-line comment: a `#`, at least one
/// byte of body up to the line break, then any run of whitespace
/// (blank lines included).
pub open spec fn parse_eol_comment_s(s: Seq<u8>) -> Option<Seq<u8>> {
    if s.len() < 2 || s[0] != 35 || s[1] == 13 || s[1] == 10 {
        None
    } else {
        let body = run_len(s, 1, ByteClass::NotCrlf);
        let rest = 1 + body + run_len(s, 1 + body, ByteClass::Whitespace);
        Some(s.subrange(rest, s.len() as int))
    }
}

/// Consumes a `#` comment and the whitespace after it, returning the
/// remainder; the comment's text is thrown away.
pub fn parse_eol_comment<'a>(input: &'a [u8]) -> (r: Option<&'a [u8]>)
    ensures
        r is Some <==> parse_eol_comment_s(input@) is Some,
        r is Some ==> r->0@ == parse_eol_comment_s(input@)->0,
{
    if input.len() < 2 {
        return None;
    }
    if input[0] != 35 {
        return None;
    }
    if input[1] == 13 || input[1] == 10 {
        return None;
    }
    proof {
        lemma_run_len(input@, 1, ByteClass::NotCrlf);
    }
    let body_end = scan(input, 1, ByteClass::NotCrlf);
    proof {
        lemma_run_len(input@, body_end as int, ByteClass::Whitespace);
    }
    let rest = scan(input, body_end, ByteClass::Whitespace);
    Some(vstd::slice::slice_subrange(input, rest, input.len()))
}

} // verus!
