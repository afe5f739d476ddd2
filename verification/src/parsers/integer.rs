//! Unsigned decimal integers.

use vstd::prelude::*;
use vstd::string::StringSliceAdditionalSpecFns;
use crate::parsers::bytes::{lemma_run_len, run_len, scan, ByteClass};

verus! {

/// The numeric value of a string of decimal digit bytes.
pub open spec fn dec_value(s: Seq<u8>) -> int
    decreases s.len(),
{
    if s.len() == 0 {
        0
    } else {
        dec_value(s.drop_last()) * 10 + (s.last() - 48)
    }
}

pub open spec fn all_digits(s: Seq<u8>) -> bool {
    forall|i: int| 0 <= i < s.len() ==> 48 <= #[trigger] s[i] <= 57
}

/// The value of a digit string is non-negative, and prefixes never exceed
/// the whole.
pub proof fn lemma_dec_value_nonneg(s: Seq<u8>)
    requires
        all_digits(s),
    ensures
        0 <= dec_value(s),
    decreases s.len(),
{
    if s.len() > 0 {
        assert(all_digits(s.drop_last()));
        lemma_dec_value_nonneg(s.drop_last());
    }
}

pub proof fn lemma_dec_value_prefix(s: Seq<u8>, i: int)
    requires
        all_digits(s),
        0 <= i <= s.len(),
    ensures
        dec_value(s.subrange(0, i)) <= dec_value(s),
    decreases s.len() - i,
{
    if i < s.len() {
        lemma_dec_value_prefix(s, i + 1);
        let a = s.subrange(0, i);
        let b = s.subrange(0, i + 1);
        assert(b.drop_last() =~= a);
        assert(all_digits(a));
        lemma_dec_value_nonneg(a);
        assert(dec_value(b) == dec_value(a) * 10 + (b.last() - 48));
        assert(dec_value(a) <= dec_value(a) * 10) by (nonlinear_arith)
            requires 0 <= dec_value(a),
        ;
    } else {
        assert(s.subrange(0, i) =~= s);
    }
}

/// The decimal value of a digit string, or nothing if it exceeds `usize`.
fn dec_value_exec(tok: &[u8]) -> (r: Option<usize>)
    requires
        all_digits(tok@),
    ensures
        r is Some <==> dec_value(tok@) <= usize::MAX,
        r is Some ==> r->0 == dec_value(tok@),
{
    let mut acc: usize = 0;
    let mut i: usize = 0;
    while i < tok.len()
        invariant
            all_digits(tok@),
            i <= tok@.len(),
            acc == dec_value(tok@.subrange(0, i as int)),
        decreases tok@.len() - i,
    {
        let d = tok[i];
        proof {
            assert(tok@.subrange(0, i as int + 1).drop_last() =~= tok@.subrange(0, i as int));
        }
        let next = match acc.checked_mul(10) {
            Some(m) => m.checked_add((d - 48) as usize),
            None => None,
        };
        match next {
            Some(v) => {
                acc = v;
            },
            None => {
                proof {
                    lemma_dec_value_prefix(tok@, i as int + 1);
                }
                return None;
            },
        }
        i = i + 1;
    }
    proof {
        assert(tok@.subrange(0, tok@.len() as int) =~= tok@);
    }
    Some(acc)
}

/// Recognises a digit token: one or more digits, each optionally followed
/// by underscores.
pub open spec fn decimal_s(s: Seq<u8>) -> Option<(Seq<u8>, Seq<u8>)> {
    if s.len() == 0 || !(48 <= s[0] <= 57) {
        None
    } else {
        let l = run_len(s, 0, ByteClass::DigitOrUnderscore);
        Some((s.subrange(l, s.len() as int), s.subrange(0, l)))
    }
}

/// Recognises the maximal digits-and-underscores token that starts with a
/// digit, returning `(remainder, token)`.
pub fn decimal<'a>(input: &'a [u8]) -> (r: Option<(&'a [u8], &'a [u8])>)
    ensures
        r is Some <==> decimal_s(input@) is Some,
        r is Some ==> (r->0).0@ == (decimal_s(input@)->0).0 && (r->0).1@ == (decimal_s(input@)->0).1,
{
    if input.len() == 0 {
        return None;
    }
    let b = input[0];
    if !(48 <= b && b <= 57) {
        return None;
    }
    proof {
        lemma_run_len(input@, 0, ByteClass::DigitOrUnderscore);
    }
    let l = scan(input, 0, ByteClass::DigitOrUnderscore);
    Some((
        vstd::slice::slice_subrange(input, l, input.len()),
        vstd::slice::slice_subrange(input, 0, l),
    ))
}

/// Converts a digit string to a machine integer; the caller guarantees
/// digits only and a value within range.
pub fn string_to_usize(input: &str) -> (r: usize)
    requires
        input.spec_bytes().len() >= 1,
        all_digits(input.spec_bytes()),
        dec_value(input.spec_bytes()) <= usize::MAX,
    ensures
        r == dec_value(input.spec_bytes()),
{
    let bytes = input.as_bytes();
    let r = dec_value_exec(bytes);
    r.unwrap()
}

/// The exact language of `parse_integer`: a pure digit token whose value
/// fits `usize`; a token with underscores, or one too large, is rejected.
pub open spec fn parse_integer_s(s: Seq<u8>) -> Option<(Seq<u8>, int)> {
    match decimal_s(s) {
        None => None,
        Some((rest, tok)) => if all_digits(tok) && dec_value(tok) <= usize::MAX {
            Some((rest, dec_value(tok)))
        } else {
            None
        },
    }
}

/// Parses an unsigned decimal integer. Unlike the bare `decimal` token,
/// underscores are rejected here, as is a value beyond `usize`.
pub fn parse_integer<'a>(input: &'a [u8]) -> (r: Option<(&'a [u8], usize)>)
    ensures
        r is Some <==> parse_integer_s(input@) is Some,
        r is Some ==> (r->0).0@ == (parse_integer_s(input@)->0).0 && (r->0).1
            == (parse_integer_s(input@)->0).1,
{
    match decimal(input) {
        None => None,
        Some((rest, tok)) => {
            proof {
                lemma_run_len(input@, 0, ByteClass::DigitOrUnderscore);
                lemma_run_len(tok@, 0, ByteClass::Digit);
            }
            let ld = scan(tok, 0, ByteClass::Digit);
            if ld < tok.len() {
                // an underscore interrupts the digits
                proof {
                    assert(!(48 <= tok@[ld as int] <= 57));
                }
                return None;
            }
            proof {
                assert(all_digits(tok@));
            }
            match dec_value_exec(tok) {
                Some(v) => Some((rest, v)),
                None => None,
            }
        },
    }
}

} // verus!
