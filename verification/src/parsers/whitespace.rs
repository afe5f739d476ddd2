//! Whitespace handling.

use vstd::prelude::*;
use crate::parsers::bytes::{lemma_run_len, run_len, scan, ByteClass};

verus! {

/// The index just past the whitespace run at `from`.
pub open spec fn after_ws(s: Seq<u8>, from: int) -> int {
    from + run_len(s, from, ByteClass::Whitespace)
}

/// Drops leading whitespace: the remainder a parser continues from after
/// a token it has consumed.
pub fn trim_whitespace(input: &[u8]) -> (rest: &[u8])
    ensures
        rest@ == input@.subrange(after_ws(input@, 0), input@.len() as int),
{
    proof {
        lemma_run_len(input@, 0, ByteClass::Whitespace);
    }
    let e = scan(input, 0, ByteClass::Whitespace);
    vstd::slice::slice_subrange(input, e, input.len())
}

} // verus!
