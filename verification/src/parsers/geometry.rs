//! Geometry statements: `v` vertices, `vn` normals and `vt` texture
//! coordinates.
//!
//! The line structure — the keyword, then whitespace-terminated float
//! tokens, some of them optional — is recognised here exactly; the
//! tokens are handed out as text, and turning them into machine numbers
//! is the caller's affair.

use vstd::prelude::*;
use crate::parsers::bytes::{lemma_run_len, lemma_run_len_shift, run_len, scan, ByteClass};
use crate::parsers::float::{float, float_s};
use crate::parsers::whitespace::trim_whitespace;

verus! {

/// One float token with its trailing whitespace consumed: returns
/// `(remainder, token)`.
pub open spec fn float_token_s(s: Seq<u8>) -> Option<(Seq<u8>, Seq<u8>)> {
    match float_s(s) {
        None => None,
        Some(e) => Some(
            (
                s.subrange(e + run_len(s, e, ByteClass::Whitespace), s.len() as int),
                s.subrange(0, e),
            ),
        ),
    }
}

/// Recognises one float token and the whitespace after it.
pub fn float_token<'a>(input: &'a [u8]) -> (r: Option<(&'a [u8], &'a [u8])>)
    ensures
        r is Some <==> float_token_s(input@) is Some,
        r is Some ==> (r->0).0@ == (float_token_s(input@)->0).0 && (r->0).1@ == (float_token_s(
            input@,
        )->0).1,
{
    match float(input) {
        None => None,
        Some((rest, tok)) => {
            let out = trim_whitespace(rest);
            proof {
                let e = float_s(input@)->0;
                crate::parsers::float::lemma_float_end_in_range(input@);
                lemma_run_len(input@, e, ByteClass::Whitespace);
                lemma_run_len_shift(input@, e, ByteClass::Whitespace);
                assert(out@ =~= input@.subrange(
                    e + run_len(input@, e, ByteClass::Whitespace),
                    input@.len() as int,
                ));
            }
            Some((out, tok))
        },
    }
}

/// The remainder after a statement keyword and its trailing whitespace,
/// or nothing if the keyword does not start the input.
pub open spec fn after_tag_s(tag: Seq<u8>, s: Seq<u8>) -> Option<Seq<u8>> {
    if !crate::parsers::bytes::tag_at(s, 0, tag) {
        None
    } else {
        Some(
            s.subrange(
                tag.len() + run_len(s, tag.len() as int, ByteClass::Whitespace),
                s.len() as int,
            ),
        )
    }
}

fn after_tag<'a>(tag: &[u8], input: &'a [u8]) -> (r: Option<&'a [u8]>)
    ensures
        r is Some <==> after_tag_s(tag@, input@) is Some,
        r is Some ==> r->0@ == after_tag_s(tag@, input@)->0,
{
    if !crate::parsers::bytes::starts_with_at(input, 0, tag) {
        return None;
    }
    proof {
        lemma_run_len(input@, tag@.len() as int, ByteClass::Whitespace);
    }
    let p = scan(input, tag.len(), ByteClass::Whitespace);
    Some(vstd::slice::slice_subrange(input, p, input.len()))
}

/// The bytes of `v`, `vn` and `vt`.
pub open spec fn v_tag() -> Seq<u8> {
    seq![118u8]
}

pub open spec fn vn_tag() -> Seq<u8> {
    seq![118u8, 110u8]
}

pub open spec fn vt_tag() -> Seq<u8> {
    seq![118u8, 116u8]
}

/// The exact language of a `vn` statement: the keyword and exactly three
/// float tokens.
pub open spec fn parse_vector_tokens_s(s: Seq<u8>) -> Option<(Seq<u8>, (Seq<u8>, Seq<u8>, Seq<u8>))> {
    match after_tag_s(vn_tag(), s) {
        None => None,
        Some(t) => match float_token_s(t) {
            None => None,
            Some((r1, x)) => match float_token_s(r1) {
                None => None,
                Some((r2, y)) => match float_token_s(r2) {
                    None => None,
                    Some((r3, z)) => Some((r3, (x, y, z))),
                },
            },
        },
    }
}

/// Recognises a `vn` normal statement, returning the remainder and the
/// three float tokens.
pub fn parse_vector_tokens<'a>(input: &'a [u8]) -> (r: Option<
    (&'a [u8], (&'a [u8], &'a [u8], &'a [u8])),
>)
    ensures
        r is Some <==> parse_vector_tokens_s(input@) is Some,
        r is Some ==> {
            let spec_r = parse_vector_tokens_s(input@)->0;
            (r->0).0@ == spec_r.0 && (r->0).1.0@ == spec_r.1.0 && (r->0).1.1@ == spec_r.1.1
                && (r->0).1.2@ == spec_r.1.2
        },
{
    let tag: [u8; 2] = [118, 110];
    proof {
        assert(tag@ =~= vn_tag());
    }
    let t = match after_tag(&tag, input) {
        None => {
            return None;
        },
        Some(t) => t,
    };
    let (r1, x) = match float_token(t) {
        None => {
            return None;
        },
        Some(p) => p,
    };
    let (r2, y) = match float_token(r1) {
        None => {
            return None;
        },
        Some(p) => p,
    };
    let (r3, z) = match float_token(r2) {
        None => {
            return None;
        },
        Some(p) => p,
    };
    Some((r3, (x, y, z)))
}

/// The exact language of a `v` statement: the keyword, three float
/// tokens, and an optional fourth (the weight).
pub open spec fn parse_vertex_tokens_s(s: Seq<u8>) -> Option<(
    Seq<u8>,
    (Seq<u8>, Seq<u8>, Seq<u8>, Option<Seq<u8>>),
)> {
    match after_tag_s(v_tag(), s) {
        None => None,
        Some(t) => match float_token_s(t) {
            None => None,
            Some((r1, x)) => match float_token_s(r1) {
                None => None,
                Some((r2, y)) => match float_token_s(r2) {
                    None => None,
                    Some((r3, z)) => match float_token_s(r3) {
                        None => Some((r3, (x, y, z, None))),
                        Some((r4, w)) => Some((r4, (x, y, z, Some(w)))),
                    },
                },
            },
        },
    }
}

/// Recognises a `v` vertex statement, returning the remainder, the three
/// coordinate tokens and the optional weight token.
pub fn parse_vertex_tokens<'a>(input: &'a [u8]) -> (r: Option<
    (&'a [u8], (&'a [u8], &'a [u8], &'a [u8], Option<&'a [u8]>)),
>)
    ensures
        r is Some <==> parse_vertex_tokens_s(input@) is Some,
        r is Some ==> {
            let spec_r = parse_vertex_tokens_s(input@)->0;
            (r->0).0@ == spec_r.0 && (r->0).1.0@ == spec_r.1.0 && (r->0).1.1@ == spec_r.1.1
                && (r->0).1.2@ == spec_r.1.2 && ((r->0).1.3 is Some <==> spec_r.1.3 is Some) && (
            (r->0).1.3 is Some ==> (r->0).1.3->0@ == spec_r.1.3->0)
        },
{
    let tag: [u8; 1] = [118];
    proof {
        assert(tag@ =~= v_tag());
    }
    let t = match after_tag(&tag, input) {
        None => {
            return None;
        },
        Some(t) => t,
    };
    let (r1, x) = match float_token(t) {
        None => {
            return None;
        },
        Some(p) => p,
    };
    let (r2, y) = match float_token(r1) {
        None => {
            return None;
        },
        Some(p) => p,
    };
    let (r3, z) = match float_token(r2) {
        None => {
            return None;
        },
        Some(p) => p,
    };
    match float_token(r3) {
        None => Some((r3, (x, y, z, None))),
        Some((r4, w)) => Some((r4, (x, y, z, Some(w)))),
    }
}

/// The exact language of a `vt` statement: the keyword, one float token,
/// and up to two more.
pub open spec fn parse_texture_coordinate_tokens_s(s: Seq<u8>) -> Option<(
    Seq<u8>,
    (Seq<u8>, Option<Seq<u8>>, Option<Seq<u8>>),
)> {
    match after_tag_s(vt_tag(), s) {
        None => None,
        Some(t) => match float_token_s(t) {
            None => None,
            Some((r1, u)) => match float_token_s(r1) {
                None => Some((r1, (u, None, None))),
                Some((r2, v)) => match float_token_s(r2) {
                    None => Some((r2, (u, Some(v), None))),
                    Some((r3, w)) => Some((r3, (u, Some(v), Some(w)))),
                },
            },
        },
    }
}

/// Recognises a `vt` texture-coordinate statement, returning the
/// remainder and the one to three float tokens.
pub fn parse_texture_coordinate_tokens<'a>(input: &'a [u8]) -> (r: Option<
    (&'a [u8], (&'a [u8], Option<&'a [u8]>, Option<&'a [u8]>)),
>)
    ensures
        r is Some <==> parse_texture_coordinate_tokens_s(input@) is Some,
        r is Some ==> {
            let spec_r = parse_texture_coordinate_tokens_s(input@)->0;
            (r->0).0@ == spec_r.0 && (r->0).1.0@ == spec_r.1.0 && ((r->0).1.1 is Some <==> spec_r.1.1
                is Some) && ((r->0).1.1 is Some ==> (r->0).1.1->0@ == spec_r.1.1->0) && ((r->0).1.2
                is Some <==> spec_r.1.2 is Some) && ((r->0).1.2 is Some ==> (r->0).1.2->0@
                == spec_r.1.2->0)
        },
{
    let tag: [u8; 2] = [118, 116];
    proof {
        assert(tag@ =~= vt_tag());
    }
    let t = match after_tag(&tag, input) {
        None => {
            return None;
        },
        Some(t) => t,
    };
    let (r1, u) = match float_token(t) {
        None => {
            return None;
        },
        Some(p) => p,
    };
    match float_token(r1) {
        None => Some((r1, (u, None, None))),
        Some((r2, v)) => match float_token(r2) {
            None => Some((r2, (u, Some(v), None))),
            Some((r3, w)) => Some((r3, (u, Some(v), Some(w)))),
        },
    }
}

} // verus!
