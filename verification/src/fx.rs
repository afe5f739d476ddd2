//! Fixed-point scalars.
//!
//! Every quantity in the renderer is a binary fixed-point number with 16
//! fractional bits, held in an `i64`. The represented value of a scalar
//! with raw units `raw` is `raw / SCALE`. All operations round toward
//! negative infinity (floor), and every operation's contract states its
//! result exactly in raw units.

use vstd::prelude::*;
use vstd::arithmetic::div_mod::{
    lemma_div_is_ordered, lemma_div_is_ordered_by_denominator, lemma_div_multiples_vanish,
    lemma_fundamental_div_mod, lemma_fundamental_div_mod_converse, lemma_mod_bound,
};

verus! {

/// Raw units per 1.0.
pub const SCALE: i64 = 65536;

/// Floor division, for a non-zero divisor of either sign.
/// (Spec-level `/` is Euclidean, which coincides with floor division for a
/// positive divisor; a negative divisor is handled by negating both sides.)
pub open spec fn floor_div(n: int, d: int) -> int {
    if d > 0 {
        n / d
    } else {
        (-n) / (-d)
    }
}

pub open spec fn fits_i64(x: int) -> bool {
    i64::MIN <= x <= i64::MAX
}

/// Raw units of the product of two scalars given in raw units.
pub open spec fn fmul_s(a: int, b: int) -> int {
    floor_div(a * b, SCALE as int)
}

/// Raw units of the quotient of two scalars given in raw units.
pub open spec fn fdiv_s(a: int, b: int) -> int {
    floor_div(a * (SCALE as int), b)
}

/// The integer square root: the greatest `r` with `r * r <= n`.
pub open spec fn sqrt_floor(n: int) -> int {
    choose|r: int| 0 <= r && #[trigger] (r * r) <= n && n < (r + 1) * (r + 1)
}

/// `sqrt_floor` is pinned down by its defining property.
pub proof fn lemma_sqrt_floor_is(n: int, r: int)
    requires
        0 <= r,
        r * r <= n,
        n < (r + 1) * (r + 1),
    ensures
        sqrt_floor(n) == r,
{
    assert(0 <= r && r * r <= n && n < (r + 1) * (r + 1));
    let s = sqrt_floor(n);
    assert(0 <= s && s * s <= n && n < (s + 1) * (s + 1));
    assert(s == r) by (nonlinear_arith)
        requires
            0 <= r,
            r * r <= n,
            n < (r + 1) * (r + 1),
            0 <= s,
            s * s <= n,
            n < (s + 1) * (s + 1),
    ;
}

/// The integer square root exists for every non-negative argument, so
/// `sqrt_floor` satisfies its defining property.
pub proof fn lemma_sqrt_floor_exists(n: int)
    requires
        0 <= n,
    ensures
        0 <= sqrt_floor(n),
        sqrt_floor(n) * sqrt_floor(n) <= n < (sqrt_floor(n) + 1) * (sqrt_floor(n) + 1),
    decreases n,
{
    if n == 0 {
        lemma_sqrt_floor_is(0, 0);
    } else {
        lemma_sqrt_floor_exists(n - 1);
        let r = sqrt_floor(n - 1);
        if (r + 1) * (r + 1) <= n {
            // then (r+1)^2 == n, since n - 1 < (r+1)^2
            assert(n < (r + 2) * (r + 2)) by (nonlinear_arith)
                requires
                    (r + 1) * (r + 1) <= n,
                    n - 1 < (r + 1) * (r + 1),
                    0 <= r,
            ;
            lemma_sqrt_floor_is(n, r + 1);
        } else {
            lemma_sqrt_floor_is(n, r);
        }
    }
}

/// Floor division by a positive divisor, written over the quotient of the
/// negated numerator: the identity used to divide signed values with
/// unsigned machine division.
pub proof fn lemma_floor_div_neg(m: int, d: int)
    requires
        0 <= m,
        0 < d,
    ensures
        (-m) / d == -((m + d - 1) / d),
{
    lemma_fundamental_div_mod(m, d);
    lemma_mod_bound(m, d);
    let q = m / d;
    let r = m % d;
    assert(m == d * q + r);
    if r == 0 {
        assert(m + d - 1 == q * d + (d - 1)) by (nonlinear_arith)
            requires m == d * q + 0int,
        ;
        lemma_fundamental_div_mod_converse(m + d - 1, d, q, d - 1);
        assert(-m == (-q) * d + 0) by (nonlinear_arith)
            requires m == d * q + 0int,
        ;
        lemma_fundamental_div_mod_converse(-m, d, -q, 0);
    } else {
        assert(m + d - 1 == (q + 1) * d + (r - 1)) by (nonlinear_arith)
            requires m == d * q + r,
        ;
        lemma_fundamental_div_mod_converse(m + d - 1, d, q + 1, r - 1);
        assert(-m == (-q - 1) * d + (d - r)) by (nonlinear_arith)
            requires m == d * q + r,
        ;
        lemma_fundamental_div_mod_converse(-m, d, -q - 1, d - r);
    }
}

/// Quotient magnitude bound used to justify narrowing casts.
pub proof fn lemma_div_pos_le(n: int, d: int)
    requires
        0 <= n,
        0 < d,
    ensures
        0 <= n / d <= n,
{
    lemma_fundamental_div_mod(n, d);
    lemma_mod_bound(n, d);
    let q = n / d;
    assert(0 <= q && q <= n) by (nonlinear_arith)
        requires
            n == d * q + n % d,
            0 <= n % d < d,
            0 <= n,
            1 <= d,
    ;
}

/// Range of a floor quotient, from a range of the numerator and a positive
/// divisor.
pub proof fn lemma_floor_div_range(n: int, b: int, d: int)
    requires
        -b <= n <= b,
        0 <= b,
        0 < d,
    ensures
        -((b + d - 1) / d) <= floor_div(n, d) <= b / d,
{
    if n >= 0 {
        lemma_div_is_ordered(n, b, d);
        lemma_div_pos_le(n, d);
        lemma_div_pos_le(b + d - 1, d);
    } else {
        lemma_floor_div_neg(-n, d);
        lemma_div_is_ordered(-n + d - 1, b + d - 1, d);
        lemma_div_pos_le(-n + d - 1, d);
        lemma_div_pos_le(b, d);
    }
}

/// Range of a fixed-point product, from ranges of its factors.
pub proof fn lemma_fmul_s_bound(a: int, b: int, ab: int, bb: int)
    requires
        -ab <= a <= ab,
        -bb <= b <= bb,
        0 <= ab,
        0 <= bb,
    ensures
        -(ab * bb) <= a * b <= ab * bb,
        -((ab * bb + 65535) / 65536) <= fmul_s(a, b) <= (ab * bb) / 65536,
{
    assert(-(ab * bb) <= a * b <= ab * bb) by (nonlinear_arith)
        requires
            -ab <= a <= ab,
            -bb <= b <= bb,
            0 <= ab,
            0 <= bb,
    ;
    assert(0 <= ab * bb) by (nonlinear_arith)
        requires 0 <= ab, 0 <= bb,
    ;
    lemma_floor_div_range(a * b, ab * bb, 65536);
}

/// A value whose square is at most `n` is dominated by anything whose
/// successor's square exceeds `n`.
pub proof fn lemma_abs_le_sqrt(x: int, n: int, m: int)
    requires
        x * x <= n,
        0 <= m,
        n < (m + 1) * (m + 1),
    ensures
        -m <= x <= m,
{
    assert(-m <= x <= m) by (nonlinear_arith)
        requires
            x * x <= n,
            0 <= m,
            n < (m + 1) * (m + 1),
    ;
}

/// Dividing a value by a dominating magnitude lands within one unit.
pub proof fn lemma_unit_ratio(x: int, m: int)
    requires
        -m <= x <= m,
        1 <= m,
    ensures
        -65536 <= floor_div(x * 65536, m) <= 65536,
        fits_i64(fdiv_s(x, m)),
{
    lemma_div_multiples_vanish(65536, m);
    assert(m * 65536 == 65536 * m);
    if x >= 0 {
        assert(x * 65536 <= m * 65536) by (nonlinear_arith)
            requires x <= m,
        ;
        lemma_div_is_ordered(x * 65536, m * 65536, m);
        lemma_div_pos_le(x * 65536, m);
    } else {
        assert(-x * 65536 <= m * 65536) by (nonlinear_arith)
            requires -x <= m,
        ;
        lemma_floor_div_neg(-(x * 65536), m);
        // ceiling of (-x * 65536) / m is at most 65536 + 1 - 1
        assert(-x * 65536 + m - 1 < m * (65536 + 1)) by (nonlinear_arith)
            requires -x * 65536 <= m * 65536, 1 <= m,
        ;
        lemma_div_is_ordered(-(x * 65536) + m - 1, m * (65536 + 1) - 1, m);
        assert(m * (65536 + 1) - 1 == 65536 * m + (m - 1)) by (nonlinear_arith);
        lemma_fundamental_div_mod_converse(m * (65536 + 1) - 1, m, 65536, m - 1);
        lemma_div_pos_le(-(x * 65536) + m - 1, m);
    }
}

/// A floor quotient clears a threshold exactly when the numerator clears
/// the threshold times the divisor.
pub proof fn lemma_div_cmp(n: int, d: int, c: int)
    requires
        0 < d,
    ensures
        (n / d >= c) <==> (n >= c * d),
{
    lemma_fundamental_div_mod(n, d);
    lemma_mod_bound(n, d);
    let q = n / d;
    let r = n % d;
    assert((q >= c) <==> (n >= c * d)) by (nonlinear_arith)
        requires
            n == d * q + r,
            0 <= r < d,
    ;
}

/// Range of a floor quotient from a lower bound on the divisor's
/// magnitude.
pub proof fn lemma_floor_div_denom_bound(n: int, d: int, dm: int)
    requires
        0 <= n,
        0 < dm,
        dm <= d || d <= -dm,
    ensures
        -(n / dm) - 1 <= floor_div(n, d) <= n / dm,
{
    if d > 0 {
        lemma_div_is_ordered_by_denominator(n, dm, d);
        lemma_div_pos_le(n, d);
        lemma_div_pos_le(n, dm);
    } else {
        let dd = -d;
        lemma_floor_div_neg(n, dd);
        lemma_fundamental_div_mod(n, dd);
        lemma_mod_bound(n, dd);
        let q = n / dd;
        let r = n % dd;
        if r == 0 {
            assert(n + dd - 1 == q * dd + (dd - 1)) by (nonlinear_arith)
                requires n == dd * q + 0int,
            ;
            lemma_fundamental_div_mod_converse(n + dd - 1, dd, q, dd - 1);
        } else {
            assert(n + dd - 1 == (q + 1) * dd + (r - 1)) by (nonlinear_arith)
                requires n == dd * q + r,
            ;
            lemma_fundamental_div_mod_converse(n + dd - 1, dd, q + 1, r - 1);
        }
        lemma_div_is_ordered_by_denominator(n, dm, dd);
        lemma_div_pos_le(n, dd);
        lemma_div_pos_le(n, dm);
    }
}

/// A fixed-point scalar; the represented value is `raw / SCALE`.
#[derive(Clone, Copy, PartialEq, Eq, Structural, Debug)]
pub struct Fx {
    pub raw: i64,
}

impl View for Fx {
    type V = int;

    open spec fn view(&self) -> int {
        self.raw as int
    }
}

/// Floor division of a product by `SCALE`, the core of fixed-point
/// multiplication and division.
pub(crate) fn div_floor_by_scale(p: i128) -> (q: i128)
    requires
        p != i128::MIN,
    ensures
        q == floor_div(p as int, SCALE as int),
{
    if p >= 0 {
        let qm: u128 = (p as u128) / 65536;
        proof {
            lemma_div_pos_le(p as int, SCALE as int);
        }
        qm as i128
    } else {
        let m: u128 = (-p) as u128;
        let qm: u128 = (m + 65535) / 65536;
        proof {
            lemma_floor_div_neg(m as int, SCALE as int);
            lemma_div_pos_le(m as int + 65535, SCALE as int);
        }
        -(qm as i128)
    }
}

impl Fx {
    /// 0.0
    pub fn zero() -> (r: Fx)
        ensures
            r@ == 0,
    {
        Fx { raw: 0 }
    }

    /// 1.0
    pub fn one() -> (r: Fx)
        ensures
            r@ == SCALE,
    {
        Fx { raw: SCALE }
    }

    /// The scalar with the given raw units.
    pub fn from_raw(raw: i64) -> (r: Fx)
        ensures
            r@ == raw,
    {
        Fx { raw }
    }

    /// The scalar for a small whole number.
    pub fn from_int(i: i32) -> (r: Fx)
        ensures
            r@ == i * (SCALE as int),
    {
        Fx { raw: (i as i64) * SCALE }
    }

    pub fn add(self, o: Fx) -> (r: Fx)
        requires
            fits_i64(self@ + o@),
        ensures
            r@ == self@ + o@,
    {
        Fx { raw: self.raw + o.raw }
    }

    pub fn sub(self, o: Fx) -> (r: Fx)
        requires
            fits_i64(self@ - o@),
        ensures
            r@ == self@ - o@,
    {
        Fx { raw: self.raw - o.raw }
    }

    pub fn neg(self) -> (r: Fx)
        requires
            fits_i64(-self@),
        ensures
            r@ == -self@,
    {
        Fx { raw: -self.raw }
    }

    pub fn mul(self, o: Fx) -> (r: Fx)
        requires
            fits_i64(fmul_s(self@, o@)),
        ensures
            r@ == fmul_s(self@, o@),
    {
        proof {
            assert((self.raw as int) * (o.raw as int) < i128::MAX
                && i128::MIN < (self.raw as int) * (o.raw as int)) by (nonlinear_arith)
                requires
                    i64::MIN <= self.raw as int <= i64::MAX,
                    i64::MIN <= o.raw as int <= i64::MAX,
            ;
        }
        let p: i128 = (self.raw as i128) * (o.raw as i128);
        let q: i128 = div_floor_by_scale(p);
        Fx { raw: q as i64 }
    }

    pub fn div(self, o: Fx) -> (r: Fx)
        requires
            o@ != 0,
            fits_i64(fdiv_s(self@, o@)),
        ensures
            r@ == fdiv_s(self@, o@),
    {
        let n: i128 = (self.raw as i128) * 65536;
        let nm: u128 = if n >= 0 { n as u128 } else { (-n) as u128 };
        let dm: u128 = if o.raw >= 0 { o.raw as u128 } else { (-(o.raw as i128)) as u128 };
        let negative: bool = (n < 0) != (o.raw < 0);
        let ghost ni = n as int;
        let ghost di = o.raw as int;
        if !negative {
            // Signs agree: |n| / |d| is the (non-negative) floor quotient.
            let qm: u128 = nm / dm;
            proof {
                lemma_div_pos_le(nm as int, dm as int);
                if di > 0 {
                    assert(ni >= 0);
                    assert(floor_div(ni, di) == (nm as int) / (dm as int));
                } else {
                    assert(ni < 0);
                    assert(floor_div(ni, di) == (-ni) / (-di));
                    assert(-ni == nm as int && -di == dm as int);
                }
            }
            Fx { raw: qm as i64 }
        } else {
            // Signs differ: the floor quotient is the negated ceiling of
            // |n| / |d|.
            let qm: u128 = (nm + (dm - 1)) / dm;
            proof {
                lemma_div_pos_le(nm as int + (dm as int - 1), dm as int);
                lemma_floor_div_neg(nm as int, dm as int);
                if di > 0 {
                    assert(ni < 0);
                    assert(floor_div(ni, di) == ni / di);
                    assert(ni == -(nm as int) && di == dm as int);
                } else {
                    assert(ni >= 0);
                    assert(floor_div(ni, di) == (-ni) / (-di));
                    assert(-ni == -(nm as int) && -di == dm as int);
                }
                assert(floor_div(ni, di) == -(qm as int));
            }
            let qi: i128 = -(qm as i128);
            Fx { raw: qi as i64 }
        }
    }

    /// The square root of a non-negative scalar, rounded down to the
    /// representable grid: the result's raw units are the integer square
    /// root of `raw * SCALE`.
    pub fn sqrt(self) -> (r: Fx)
        requires
            self@ >= 0,
        ensures
            r@ == sqrt_floor(self@ * (SCALE as int)),
            r@ >= 0,
            r@ * r@ <= self@ * (SCALE as int) < (r@ + 1) * (r@ + 1),
    {
        let n: u128 = (self.raw as u128) * 65536;
        let s: u64 = isqrt_u128(n);
        proof {
            lemma_sqrt_floor_is(n as int, s as int);
            assert((s as int) * (s as int) <= n as int);
            assert(n as int <= 0x7fffffffffffffffint * 65536);
            assert(s as int <= i64::MAX) by (nonlinear_arith)
                requires
                    (s as int) * (s as int) <= 0x7fffffffffffffffint * 65536,
                    0 <= s as int,
            ;
        }
        Fx { raw: s as i64 }
    }
}

/// Fixed-point multiplication together with a range derivation, for
/// callers that track magnitude budgets.
pub(crate) fn mul_bounded(a: Fx, b: Fx, Ghost(ab): Ghost<int>, Ghost(bb): Ghost<int>) -> (r: Fx)
    requires
        -ab <= a@ <= ab,
        -bb <= b@ <= bb,
        0 <= ab,
        0 <= bb,
        ab * bb <= 0x7fff_0000_0000_0000int * 65536,
    ensures
        r@ == fmul_s(a@, b@),
        -((ab * bb + 65535) / 65536) <= r@ <= (ab * bb) / 65536,
{
    proof {
        lemma_fmul_s_bound(a@, b@, ab, bb);
        lemma_div_is_ordered(ab * bb, 0x7fff_0000_0000_0000int * 65536, 65536);
        lemma_div_is_ordered(ab * bb + 65535, 0x7fff_0000_0000_0000int * 65536 + 65535, 65536);
        lemma_div_multiples_vanish(0x7fff_0000_0000_0000, 65536);
        lemma_fundamental_div_mod_converse(
            0x7fff_0000_0000_0000int * 65536 + 65535,
            65536,
            0x7fff_0000_0000_0000,
            65535,
        );
    }
    a.mul(b)
}

/// Integer square root by bisection.
pub fn isqrt_u128(n: u128) -> (r: u64)
    ensures
        (r as int) * (r as int) <= n as int,
        (n as int) < (r as int + 1) * (r as int + 1),
{
    let mut lo: u128 = 0;
    let mut hi: u128 = 0x1_0000_0000_0000_0000;
    proof {
        assert((hi as int) * (hi as int) > u128::MAX) by (nonlinear_arith)
            requires hi == 0x1_0000_0000_0000_0000u128,
        ;
    }
    while lo + 1 < hi
        invariant
            lo < hi,
            hi <= 0x1_0000_0000_0000_0000,
            (lo as int) * (lo as int) <= n as int,
            (n as int) < (hi as int) * (hi as int),
        decreases hi - lo,
    {
        let mid: u128 = lo + (hi - lo) / 2;
        proof {
            assert(lo < mid < hi);
            assert((mid as int) * (mid as int) < u128::MAX) by (nonlinear_arith)
                requires
                    mid as int <= 0xffff_ffff_ffff_ffffint,
                    0 <= mid as int,
            ;
        }
        if mid * mid <= n {
            lo = mid;
        } else {
            hi = mid;
        }
    }
    lo as u64
}

} // verus!
