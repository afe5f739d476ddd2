//! Floating-point literal recognition.
//!
//! Only the textual shape is recognised here; converting the recognised
//! text to a machine number is left to the caller. The accepted forms are
//! an optional minus sign followed by `.42`-style fractions, mantissas
//! with a mandatory exponent (`42e42`, `42.42e42`), dotted mantissas
//! (`42.`, `42.42`), or a bare integer part, each with the digit grammar
//! of `decimal` (underscores allowed after a digit).

use vstd::prelude::*;
use crate::parsers::bytes::{lemma_run_len, run_len, scan, ByteClass};

verus! {

pub open spec fn is_digit(b: u8) -> bool {
    48 <= b <= 57
}

/// The end of a well-formed exponent (`e` or `E`, an optional sign, a
/// digit token) starting at `q`, if any.
pub open spec fn exp_end_s(s: Seq<u8>, q: int) -> Option<int> {
    if 0 <= q < s.len() && (s[q] == 101 || s[q] == 69) {
        let r = if q + 1 < s.len() && (s[q + 1] == 43 || s[q + 1] == 45) {
            q + 2
        } else {
            q + 1
        };
        if r < s.len() && is_digit(s[r]) {
            Some(r + run_len(s, r, ByteClass::DigitOrUnderscore))
        } else {
            None
        }
    } else {
        None
    }
}

/// The end of the float literal starting the input, if any.
pub open spec fn float_s(s: Seq<u8>) -> Option<int> {
    let p: int = if s.len() > 0 && s[0] == 45 {
        1
    } else {
        0
    };
    if p < s.len() && s[p] == 46 {
        // leading-dot fraction, with an optional exponent
        if p + 1 < s.len() && is_digit(s[p + 1]) {
            let q = p + 1 + run_len(s, p + 1, ByteClass::DigitOrUnderscore);
            match exp_end_s(s, q) {
                Some(e) => Some(e),
                None => Some(q),
            }
        } else {
            None
        }
    } else if p < s.len() && is_digit(s[p]) {
        let q = p + run_len(s, p, ByteClass::DigitOrUnderscore);
        // mantissa with mandatory exponent, fraction optional
        let q2 = if q + 1 < s.len() && s[q] == 46 && is_digit(s[q + 1]) {
            q + 1 + run_len(s, q + 1, ByteClass::DigitOrUnderscore)
        } else {
            q
        };
        match exp_end_s(s, q2) {
            Some(e) => Some(e),
            None => if q < s.len() && s[q] == 46 {
                // dotted mantissa without exponent
                Some(
                    if q + 1 < s.len() && is_digit(s[q + 1]) {
                        q + 1 + run_len(s, q + 1, ByteClass::DigitOrUnderscore)
                    } else {
                        q + 1
                    },
                )
            } else {
                // bare integer part
                Some(q)
            },
        }
    } else {
        None
    }
}

/// Scans an exponent starting at `q`; see `exp_end_s`.
fn exp_scan(input: &[u8], q: usize) -> (r: Option<usize>)
    requires
        q <= input@.len(),
    ensures
        r is Some <==> exp_end_s(input@, q as int) is Some,
        r is Some ==> r->0 == exp_end_s(input@, q as int)->0,
{
    if q < input.len() && (input[q] == 101 || input[q] == 69) {
        let r = if q + 1 < input.len() && (input[q + 1] == 43 || input[q + 1] == 45) {
            q + 2
        } else {
            q + 1
        };
        if r < input.len() && 48 <= input[r] && input[r] <= 57 {
            proof {
                lemma_run_len(input@, r as int, ByteClass::DigitOrUnderscore);
            }
            Some(scan(input, r, ByteClass::DigitOrUnderscore))
        } else {
            None
        }
    } else {
        None
    }
}

/// Recognises the longest float literal starting the input, returning
/// `(remainder, matched text)`.
pub fn float<'a>(input: &'a [u8]) -> (r: Option<(&'a [u8], &'a [u8])>)
    ensures
        r is Some <==> float_s(input@) is Some,
        r is Some ==> (r->0).0@ == input@.subrange(float_s(input@)->0, input@.len() as int)
            && (r->0).1@ == input@.subrange(0, float_s(input@)->0),
{
    let n = input.len();
    let p: usize = if n > 0 && input[0] == 45 {
        1
    } else {
        0
    };
    if p < n && input[p] == 46 {
        if p + 1 < n && 48 <= input[p + 1] && input[p + 1] <= 57 {
            proof {
                lemma_run_len(input@, p as int + 1, ByteClass::DigitOrUnderscore);
            }
            let q = scan(input, p + 1, ByteClass::DigitOrUnderscore);
            let end = match exp_scan(input, q) {
                Some(e) => {
                    proof {
                        lemma_exp_end_in_range(input@, q as int);
                    }
                    e
                },
                None => q,
            };
            Some((
                vstd::slice::slice_subrange(input, end, n),
                vstd::slice::slice_subrange(input, 0, end),
            ))
        } else {
            None
        }
    } else if p < n && 48 <= input[p] && input[p] <= 57 {
        proof {
            lemma_run_len(input@, p as int, ByteClass::DigitOrUnderscore);
        }
        let q = scan(input, p, ByteClass::DigitOrUnderscore);
        let q2 = if q < n && input[q] == 46 && q + 1 < n && 48 <= input[q + 1] && input[q + 1] <= 57 {
            proof {
                lemma_run_len(input@, q as int + 1, ByteClass::DigitOrUnderscore);
            }
            scan(input, q + 1, ByteClass::DigitOrUnderscore)
        } else {
            q
        };
        match exp_scan(input, q2) {
            Some(e) => {
                proof {
                    lemma_exp_end_in_range(input@, q2 as int);
                }
                Some((
                    vstd::slice::slice_subrange(input, e, n),
                    vstd::slice::slice_subrange(input, 0, e),
                ))
            },
            None => {
                if q < n && input[q] == 46 {
                    let end = if q + 1 < n && 48 <= input[q + 1] && input[q + 1] <= 57 {
                        proof {
                            lemma_run_len(input@, q as int + 1, ByteClass::DigitOrUnderscore);
                        }
                        scan(input, q + 1, ByteClass::DigitOrUnderscore)
                    } else {
                        q + 1
                    };
                    Some((
                        vstd::slice::slice_subrange(input, end, n),
                        vstd::slice::slice_subrange(input, 0, end),
                    ))
                } else {
                    Some((
                        vstd::slice::slice_subrange(input, q, n),
                        vstd::slice::slice_subrange(input, 0, q),
                    ))
                }
            },
        }
    } else {
        None
    }
}

/// A recognised float literal ends within the input.
pub proof fn lemma_float_end_in_range(s: Seq<u8>)
    requires
        float_s(s) is Some,
    ensures
        0 <= float_s(s)->0 <= s.len(),
{
    let p: int = if s.len() > 0 && s[0] == 45 {
        1
    } else {
        0
    };
    if p < s.len() && s[p] == 46 {
        if p + 1 < s.len() && is_digit(s[p + 1]) {
            lemma_run_len(s, p + 1, ByteClass::DigitOrUnderscore);
            let q = p + 1 + run_len(s, p + 1, ByteClass::DigitOrUnderscore);
            if exp_end_s(s, q) is Some {
                lemma_exp_end_in_range(s, q);
            }
        }
    } else if p < s.len() && is_digit(s[p]) {
        lemma_run_len(s, p, ByteClass::DigitOrUnderscore);
        let q = p + run_len(s, p, ByteClass::DigitOrUnderscore);
        if q + 1 < s.len() && s[q] == 46 && is_digit(s[q + 1]) {
            lemma_run_len(s, q + 1, ByteClass::DigitOrUnderscore);
        }
        let q2 = if q + 1 < s.len() && s[q] == 46 && is_digit(s[q + 1]) {
            q + 1 + run_len(s, q + 1, ByteClass::DigitOrUnderscore)
        } else {
            q
        };
        if exp_end_s(s, q2) is Some {
            lemma_exp_end_in_range(s, q2);
        }
    }
}

/// A well-formed exponent's end stays within the input.
proof fn lemma_exp_end_in_range(s: Seq<u8>, q: int)
    requires
        0 <= q <= s.len(),
        exp_end_s(s, q) is Some,
    ensures
        q <= exp_end_s(s, q)->0 <= s.len(),
{
    if q < s.len() && (s[q] == 101 || s[q] == 69) {
        let r = if q + 1 < s.len() && (s[q + 1] == 43 || s[q + 1] == 45) {
            q + 2
        } else {
            q + 1
        };
        if r < s.len() {
            lemma_run_len(s, r, ByteClass::DigitOrUnderscore);
        }
    }
}

} // verus!
