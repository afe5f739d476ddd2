//! Homogeneous points and directions.
//!
//! A vector holds four fixed-point components; `w` tags affine points
//! (`w == 1.0`) against directions, and every arithmetic operation that
//! produces a fresh vector restores `w` to 1.0, as the renderer's point
//! convention demands.

use vstd::prelude::*;
use crate::fx::{
    fdiv_s, fits_i64, floor_div, fmul_s, isqrt_u128, lemma_abs_le_sqrt, lemma_floor_div_range,
    lemma_sqrt_floor_is, lemma_unit_ratio, sqrt_floor, Fx, SCALE,
};

verus! {

/// A product of two raw components that stays well inside `i128`, and whose
/// fixed-point quotient stays well inside `i64`. Three such products can be
/// summed and scaled without overflow.
pub open spec fn prod_ok(a: int, b: int) -> bool {
    -0x1000_0000_0000_0000_0000 <= a * b <= 0x1000_0000_0000_0000_0000
}

#[derive(Clone, Copy, PartialEq, Eq, Structural, Debug)]
pub struct HVector {
    pub x: Fx,
    pub y: Fx,
    pub z: Fx,
    pub w: Fx,
}

/// The dot product of the first three components, in raw units.
pub open spec fn dot_s(a: HVector, b: HVector) -> int {
    floor_div(a.x@ * b.x@ + a.y@ * b.y@ + a.z@ * b.z@, SCALE as int)
}

/// The exact (unscaled) sum of squared raw components.
pub open spec fn mag_sq_int(a: HVector) -> int {
    a.x@ * a.x@ + a.y@ * a.y@ + a.z@ * a.z@
}

/// The magnitude in raw units: as the components carry one factor of
/// `SCALE` each, the square root of the raw sum of squares is already in
/// raw units, with no intermediate rounding.
pub open spec fn mag_s(a: HVector) -> int {
    sqrt_floor(mag_sq_int(a))
}

/// All three coordinates within `b` in magnitude.
pub open spec fn bounded3(v: HVector, b: int) -> bool {
    -b <= v.x@ <= b && -b <= v.y@ <= b && -b <= v.z@ <= b
}

/// The component-wise sum, with `w` re-fixed to 1.0; meaningful when
/// `fits_add(a, b)` holds.
pub open spec fn add_v(a: HVector, b: HVector) -> HVector {
    HVector {
        x: Fx { raw: (a.x@ + b.x@) as i64 },
        y: Fx { raw: (a.y@ + b.y@) as i64 },
        z: Fx { raw: (a.z@ + b.z@) as i64 },
        w: Fx { raw: SCALE },
    }
}

/// The coordinates scaled by `f`, with `w` re-fixed to 1.0; meaningful
/// when `fits_scale(a, f)` holds.
pub open spec fn scale_v(a: HVector, f: int) -> HVector {
    HVector {
        x: Fx { raw: fmul_s(a.x@, f) as i64 },
        y: Fx { raw: fmul_s(a.y@, f) as i64 },
        z: Fx { raw: fmul_s(a.z@, f) as i64 },
        w: Fx { raw: SCALE },
    }
}

/// The cross product, with `w` re-fixed to 1.0; meaningful when
/// `fits_cross(a, b)` holds.
pub open spec fn cross_v(a: HVector, b: HVector) -> HVector {
    HVector {
        x: Fx { raw: floor_div(a.y@ * b.z@ - a.z@ * b.y@, SCALE as int) as i64 },
        y: Fx { raw: floor_div(a.z@ * b.x@ - a.x@ * b.z@, SCALE as int) as i64 },
        z: Fx { raw: floor_div(a.x@ * b.y@ - a.y@ * b.x@, SCALE as int) as i64 },
        w: Fx { raw: SCALE },
    }
}

/// The negation of the three coordinates, with `w` re-fixed to 1.0.
pub open spec fn neg_v(a: HVector) -> HVector {
    HVector {
        x: Fx { raw: (-a.x@) as i64 },
        y: Fx { raw: (-a.y@) as i64 },
        z: Fx { raw: (-a.z@) as i64 },
        w: Fx { raw: SCALE },
    }
}

/// The unit vector along `v` (meaningful when `v` has positive
/// magnitude).
pub open spec fn normalized_v(v: HVector) -> HVector {
    HVector {
        x: Fx { raw: fdiv_s(v.x@, mag_s(v)) as i64 },
        y: Fx { raw: fdiv_s(v.y@, mag_s(v)) as i64 },
        z: Fx { raw: fdiv_s(v.z@, mag_s(v)) as i64 },
        w: Fx { raw: SCALE },
    }
}

/// The reflection of `a` about `n`, as a vector.
pub open spec fn reflect_v(a: HVector, n: HVector) -> HVector {
    HVector {
        x: Fx { raw: reflect_c(a.x@, n.x@, dot_s(a, n)) as i64 },
        y: Fx { raw: reflect_c(a.y@, n.y@, dot_s(a, n)) as i64 },
        z: Fx { raw: reflect_c(a.z@, n.z@, dot_s(a, n)) as i64 },
        w: Fx { raw: SCALE },
    }
}

/// The component-wise difference, with `w` re-fixed to 1.0; meaningful
/// when `fits_sub(a, b)` holds.
pub open spec fn sub_v(a: HVector, b: HVector) -> HVector {
    HVector {
        x: Fx { raw: (a.x@ - b.x@) as i64 },
        y: Fx { raw: (a.y@ - b.y@) as i64 },
        z: Fx { raw: (a.z@ - b.z@) as i64 },
        w: Fx { raw: SCALE },
    }
}

pub open spec fn fits_dot(a: HVector, b: HVector) -> bool {
    prod_ok(a.x@, b.x@) && prod_ok(a.y@, b.y@) && prod_ok(a.z@, b.z@)
}

pub open spec fn fits_cross(a: HVector, b: HVector) -> bool {
    &&& prod_ok(a.y@, b.z@)
    &&& prod_ok(a.z@, b.y@)
    &&& prod_ok(a.z@, b.x@)
    &&& prod_ok(a.x@, b.z@)
    &&& prod_ok(a.x@, b.y@)
    &&& prod_ok(a.y@, b.x@)
}

pub open spec fn fits_add(a: HVector, b: HVector) -> bool {
    fits_i64(a.x@ + b.x@) && fits_i64(a.y@ + b.y@) && fits_i64(a.z@ + b.z@)
}

pub open spec fn fits_sub(a: HVector, b: HVector) -> bool {
    fits_i64(a.x@ - b.x@) && fits_i64(a.y@ - b.y@) && fits_i64(a.z@ - b.z@)
}

pub open spec fn fits_scale(a: HVector, f: int) -> bool {
    fits_i64(fmul_s(a.x@, f)) && fits_i64(fmul_s(a.y@, f)) && fits_i64(fmul_s(a.z@, f))
}

/// The reflection of `a` about `normal`: `a - normal * (2 * dot(a, normal))`,
/// one raw component.
pub open spec fn reflect_c(ac: int, nc: int, d: int) -> int {
    ac - fmul_s(nc, 2 * d)
}

pub open spec fn fits_reflect(a: HVector, n: HVector) -> bool {
    &&& fits_dot(a, n)
    &&& fits_i64(2 * dot_s(a, n))
    &&& fits_i64(fmul_s(n.x@, 2 * dot_s(a, n)))
    &&& fits_i64(fmul_s(n.y@, 2 * dot_s(a, n)))
    &&& fits_i64(fmul_s(n.z@, 2 * dot_s(a, n)))
    &&& fits_i64(reflect_c(a.x@, n.x@, dot_s(a, n)))
    &&& fits_i64(reflect_c(a.y@, n.y@, dot_s(a, n)))
    &&& fits_i64(reflect_c(a.z@, n.z@, dot_s(a, n)))
}

/// Floor division of a three-product sum by `SCALE`, shared by `dot` and
/// `cross`; the summands are given pre-multiplied.
pub(crate) fn sum3_div_scale(px: i128, py: i128, pz: i128) -> (q: i64)
    requires
        -0x1000_0000_0000_0000_0000 <= px <= 0x1000_0000_0000_0000_0000,
        -0x1000_0000_0000_0000_0000 <= py <= 0x1000_0000_0000_0000_0000,
        -0x1000_0000_0000_0000_0000 <= pz <= 0x1000_0000_0000_0000_0000,
    ensures
        q == floor_div(px + py + pz, SCALE as int),
{
    let p: i128 = px + py + pz;
    proof {
        lemma_floor_div_range(p as int, 0x3000_0000_0000_0000_0000, 65536);
    }
    let q: i128 = crate::fx::div_floor_by_scale(p);
    q as i64
}

impl HVector {
    /// A point from its three coordinates; `w` is fixed to 1.0.
    pub fn new(v: [Fx; 3]) -> (r: HVector)
        ensures
            r.x == v[0] && r.y == v[1] && r.z == v[2] && r.w@ == SCALE,
    {
        HVector { x: v[0], y: v[1], z: v[2], w: Fx::one() }
    }

    pub fn to_array(&self) -> (r: [Fx; 3])
        ensures
            r[0] == self.x && r[1] == self.y && r[2] == self.z,
    {
        [self.x, self.y, self.z]
    }

    pub fn to_vector3(&self) -> (r: Vector3)
        ensures
            r.x == self.x && r.y == self.y && r.z == self.z,
    {
        Vector3 { x: self.x, y: self.y, z: self.z }
    }

    pub fn add(self, rhs: HVector) -> (r: HVector)
        requires
            fits_add(self, rhs),
        ensures
            r.x@ == self.x@ + rhs.x@,
            r.y@ == self.y@ + rhs.y@,
            r.z@ == self.z@ + rhs.z@,
            r.w@ == SCALE,
    {
        HVector {
            x: self.x.add(rhs.x),
            y: self.y.add(rhs.y),
            z: self.z.add(rhs.z),
            w: Fx::one(),
        }
    }

    pub fn sub(self, rhs: HVector) -> (r: HVector)
        requires
            fits_sub(self, rhs),
        ensures
            r.x@ == self.x@ - rhs.x@,
            r.y@ == self.y@ - rhs.y@,
            r.z@ == self.z@ - rhs.z@,
            r.w@ == SCALE,
    {
        HVector {
            x: self.x.sub(rhs.x),
            y: self.y.sub(rhs.y),
            z: self.z.sub(rhs.z),
            w: Fx::one(),
        }
    }

    /// Multiplies the three coordinates by `factor` and re-fixes `w`.
    pub fn scale(&self, factor: Fx) -> (r: HVector)
        requires
            fits_scale(*self, factor@),
        ensures
            r.x@ == fmul_s(self.x@, factor@),
            r.y@ == fmul_s(self.y@, factor@),
            r.z@ == fmul_s(self.z@, factor@),
            r.w@ == SCALE,
    {
        HVector {
            x: self.x.mul(factor),
            y: self.y.mul(factor),
            z: self.z.mul(factor),
            w: Fx::one(),
        }
    }

    /// Scaling by -1.0 is exact on the fixed-point grid.
    pub fn reverse(&self) -> (r: HVector)
        requires
            fits_i64(-self.x@),
            fits_i64(-self.y@),
            fits_i64(-self.z@),
        ensures
            r.x@ == -self.x@,
            r.y@ == -self.y@,
            r.z@ == -self.z@,
            r.w@ == SCALE,
    {
        HVector { x: self.x.neg(), y: self.y.neg(), z: self.z.neg(), w: Fx::one() }
    }

    /// Dot product over the first three components only; `w` never takes
    /// part in a dot product.
    pub fn dot(&self, rhs: &HVector) -> (r: Fx)
        requires
            fits_dot(*self, *rhs),
        ensures
            r@ == dot_s(*self, *rhs),
    {
        let px: i128 = (self.x.raw as i128) * (rhs.x.raw as i128);
        let py: i128 = (self.y.raw as i128) * (rhs.y.raw as i128);
        let pz: i128 = (self.z.raw as i128) * (rhs.z.raw as i128);
        Fx { raw: sum3_div_scale(px, py, pz) }
    }

    pub fn cross(&self, rhs: &HVector) -> (r: HVector)
        requires
            fits_cross(*self, *rhs),
        ensures
            r.x@ == floor_div(self.y@ * rhs.z@ - self.z@ * rhs.y@, SCALE as int),
            r.y@ == floor_div(self.z@ * rhs.x@ - self.x@ * rhs.z@, SCALE as int),
            r.z@ == floor_div(self.x@ * rhs.y@ - self.y@ * rhs.x@, SCALE as int),
            r.w@ == SCALE,
    {
        let cx: i64 = sum3_div_scale(
            (self.y.raw as i128) * (rhs.z.raw as i128),
            -((self.z.raw as i128) * (rhs.y.raw as i128)),
            0,
        );
        let cy: i64 = sum3_div_scale(
            (self.z.raw as i128) * (rhs.x.raw as i128),
            -((self.x.raw as i128) * (rhs.z.raw as i128)),
            0,
        );
        let cz: i64 = sum3_div_scale(
            (self.x.raw as i128) * (rhs.y.raw as i128),
            -((self.y.raw as i128) * (rhs.x.raw as i128)),
            0,
        );
        HVector { x: Fx { raw: cx }, y: Fx { raw: cy }, z: Fx { raw: cz }, w: Fx::one() }
    }

    /// `dot` of a vector with itself, as a fixed-point scalar.
    pub fn magnitude_squared(&self) -> (r: Fx)
        requires
            fits_dot(*self, *self),
        ensures
            r@ == dot_s(*self, *self),
            r@ >= 0,
    {
        let r = self.dot(self);
        proof {
            assert(self.x@ * self.x@ >= 0 && self.y@ * self.y@ >= 0 && self.z@ * self.z@ >= 0)
                by (nonlinear_arith);
            crate::fx::lemma_div_pos_le(mag_sq_int(*self), SCALE as int);
        }
        r
    }

    /// The Euclidean length in raw units, computed from the unscaled sum
    /// of squares so that no precision is lost before the square root.
    pub fn magnitude(&self) -> (r: Fx)
        requires
            fits_dot(*self, *self),
        ensures
            r@ == mag_s(*self),
            r@ * r@ <= mag_sq_int(*self) < (r@ + 1) * (r@ + 1),
            r@ >= 0,
    {
        proof {
            assert(self.x@ * self.x@ >= 0 && self.y@ * self.y@ >= 0 && self.z@ * self.z@ >= 0)
                by (nonlinear_arith);
        }
        let px: i128 = (self.x.raw as i128) * (self.x.raw as i128);
        let py: i128 = (self.y.raw as i128) * (self.y.raw as i128);
        let pz: i128 = (self.z.raw as i128) * (self.z.raw as i128);
        let p: i128 = px + py + pz;
        let s: u64 = isqrt_u128(p as u128);
        proof {
            lemma_sqrt_floor_is(p as int, s as int);
            assert(s as int <= 0x1_0000_0000_0000int) by (nonlinear_arith)
                requires
                    (s as int) * (s as int) <= 0x3000_0000_0000_0000_0000int,
                    0 <= s as int,
            ;
        }
        Fx { raw: s as i64 }
    }

    /// The vector scaled to unit length: each coordinate becomes
    /// `coordinate * SCALE / magnitude`, rounded down. The zero vector has
    /// no direction and is excluded by precondition.
    pub fn normalized(&self) -> (r: HVector)
        requires
            fits_dot(*self, *self),
            mag_s(*self) >= 1,
        ensures
            r.x@ == fdiv_s(self.x@, mag_s(*self)),
            r.y@ == fdiv_s(self.y@, mag_s(*self)),
            r.z@ == fdiv_s(self.z@, mag_s(*self)),
            r.w@ == SCALE,
            -(SCALE as int) <= r.x@ <= SCALE as int,
            -(SCALE as int) <= r.y@ <= SCALE as int,
            -(SCALE as int) <= r.z@ <= SCALE as int,
    {
        let m = self.magnitude();
        proof {
            assert(self.y@ * self.y@ >= 0 && self.z@ * self.z@ >= 0 && self.x@ * self.x@ >= 0)
                by (nonlinear_arith);
            lemma_abs_le_sqrt(self.x@, mag_sq_int(*self), m@);
            lemma_abs_le_sqrt(self.y@, mag_sq_int(*self), m@);
            lemma_abs_le_sqrt(self.z@, mag_sq_int(*self), m@);
            lemma_unit_ratio(self.x@, m@);
            lemma_unit_ratio(self.y@, m@);
            lemma_unit_ratio(self.z@, m@);
        }
        HVector {
            x: self.x.div(m),
            y: self.y.div(m),
            z: self.z.div(m),
            w: Fx::one(),
        }
    }

    /// `self - normal * (2 * dot(self, normal))`.
    pub fn reflect(&self, normal: &HVector) -> (r: HVector)
        requires
            fits_reflect(*self, *normal),
        ensures
            r.x@ == reflect_c(self.x@, normal.x@, dot_s(*self, *normal)),
            r.y@ == reflect_c(self.y@, normal.y@, dot_s(*self, *normal)),
            r.z@ == reflect_c(self.z@, normal.z@, dot_s(*self, *normal)),
            r.w@ == SCALE,
    {
        let d = self.dot(normal);
        let twice = d.add(d);
        let scaled = normal.scale(twice);
        self.sub(scaled)
    }
}

/// Dot products of coordinate-bounded vectors fit, and the result is
/// bounded.
pub proof fn lemma_dot_bound(a: HVector, b: HVector, ab: int, bb: int)
    requires
        bounded3(a, ab),
        bounded3(b, bb),
        0 <= ab,
        0 <= bb,
        ab * bb <= 0x1000_0000_0000_0000_0000,
    ensures
        fits_dot(a, b),
        -((3 * (ab * bb) + 65535) / 65536) <= dot_s(a, b) <= (3 * (ab * bb) + 65535) / 65536,
{
    assert(-(ab * bb) <= a.x@ * b.x@ <= ab * bb && -(ab * bb) <= a.y@ * b.y@ <= ab * bb
        && -(ab * bb) <= a.z@ * b.z@ <= ab * bb && 0 <= ab * bb) by (nonlinear_arith)
        requires
            -ab <= a.x@ <= ab && -ab <= a.y@ <= ab && -ab <= a.z@ <= ab,
            -bb <= b.x@ <= bb && -bb <= b.y@ <= bb && -bb <= b.z@ <= bb,
            0 <= ab,
            0 <= bb,
    ;
    crate::fx::lemma_floor_div_range(
        a.x@ * b.x@ + a.y@ * b.y@ + a.z@ * b.z@,
        3 * (ab * bb),
        65536,
    );
    vstd::arithmetic::div_mod::lemma_div_is_ordered(3 * (ab * bb), 3 * (ab * bb) + 65535, 65536);
}

/// Cross products of coordinate-bounded vectors fit, and the result's
/// coordinates are bounded.
pub proof fn lemma_cross_bound(a: HVector, b: HVector, ab: int, bb: int)
    requires
        bounded3(a, ab),
        bounded3(b, bb),
        0 <= ab,
        0 <= bb,
        ab * bb <= 0x1000_0000_0000_0000_0000,
    ensures
        fits_cross(a, b),
        bounded3(cross_v(a, b), (2 * (ab * bb) + 65535) / 65536),
{
    assert(-(ab * bb) <= a.y@ * b.z@ <= ab * bb && -(ab * bb) <= a.z@ * b.y@ <= ab * bb
        && -(ab * bb) <= a.z@ * b.x@ <= ab * bb && -(ab * bb) <= a.x@ * b.z@ <= ab * bb
        && -(ab * bb) <= a.x@ * b.y@ <= ab * bb && -(ab * bb) <= a.y@ * b.x@ <= ab * bb
        && 0 <= ab * bb) by (nonlinear_arith)
        requires
            -ab <= a.x@ <= ab && -ab <= a.y@ <= ab && -ab <= a.z@ <= ab,
            -bb <= b.x@ <= bb && -bb <= b.y@ <= bb && -bb <= b.z@ <= bb,
            0 <= ab,
            0 <= bb,
    ;
    crate::fx::lemma_floor_div_range(a.y@ * b.z@ - a.z@ * b.y@, 2 * (ab * bb), 65536);
    crate::fx::lemma_floor_div_range(a.z@ * b.x@ - a.x@ * b.z@, 2 * (ab * bb), 65536);
    crate::fx::lemma_floor_div_range(a.x@ * b.y@ - a.y@ * b.x@, 2 * (ab * bb), 65536);
    vstd::arithmetic::div_mod::lemma_div_is_ordered(2 * (ab * bb), 2 * (ab * bb) + 65535, 65536);
    vstd::arithmetic::div_mod::lemma_div_is_ordered(
        2 * (ab * bb) + 65535,
        2 * 0x1000_0000_0000_0000_0000int + 65535,
        65536,
    );
}

/// Scaling a coordinate-bounded vector by a bounded factor fits, and the
/// result's coordinates are bounded.
pub proof fn lemma_scale_bound(a: HVector, f: int, ab: int, fb: int)
    requires
        bounded3(a, ab),
        -fb <= f <= fb,
        0 <= ab,
        0 <= fb,
        ab * fb <= 0x1000_0000_0000_0000_0000,
    ensures
        fits_scale(a, f),
        bounded3(scale_v(a, f), (ab * fb + 65535) / 65536),
{
    crate::fx::lemma_fmul_s_bound(a.x@, f, ab, fb);
    crate::fx::lemma_fmul_s_bound(a.y@, f, ab, fb);
    crate::fx::lemma_fmul_s_bound(a.z@, f, ab, fb);
    vstd::arithmetic::div_mod::lemma_div_is_ordered(ab * fb, ab * fb + 65535, 65536);
    vstd::arithmetic::div_mod::lemma_div_is_ordered(
        ab * fb + 65535,
        0x1000_0000_0000_0000_0000int + 65535,
        65536,
    );
}

/// A normalized vector has coordinates within one unit.
pub proof fn lemma_normalized_bounded(v: HVector)
    requires
        mag_s(v) >= 1,
    ensures
        bounded3(normalized_v(v), SCALE as int),
{
    assert(0 <= mag_sq_int(v)) by (nonlinear_arith);
    crate::fx::lemma_sqrt_floor_exists(mag_sq_int(v));
    let m = mag_s(v);
    assert(v.x@ * v.x@ <= mag_sq_int(v) && v.y@ * v.y@ <= mag_sq_int(v) && v.z@ * v.z@
        <= mag_sq_int(v)) by (nonlinear_arith);
    lemma_abs_le_sqrt(v.x@, mag_sq_int(v), m);
    lemma_abs_le_sqrt(v.y@, mag_sq_int(v), m);
    lemma_abs_le_sqrt(v.z@, mag_sq_int(v), m);
    lemma_unit_ratio(v.x@, m);
    lemma_unit_ratio(v.y@, m);
    lemma_unit_ratio(v.z@, m);
}

/// A lower bound on the squared magnitude gives a lower bound on the
/// magnitude.
pub proof fn lemma_mag_lower(v: HVector, c: int)
    requires
        0 <= c,
        c * c <= mag_sq_int(v),
    ensures
        mag_s(v) >= c,
{
    assert(0 <= mag_sq_int(v)) by (nonlinear_arith);
    crate::fx::lemma_sqrt_floor_exists(mag_sq_int(v));
    let m = mag_s(v);
    assert(m >= c) by (nonlinear_arith)
        requires
            0 <= c,
            c * c <= mag_sq_int(v),
            0 <= m,
            mag_sq_int(v) < (m + 1) * (m + 1),
    ;
}

/// Reflection of a near-unit vector about a near-unit normal fits, and
/// the result's coordinates are bounded.
pub proof fn lemma_reflect_fits(a: HVector, n: HVector)
    requires
        bounded3(a, 0x20000),
        bounded3(n, 0x20000),
    ensures
        fits_reflect(a, n),
        bounded3(reflect_v(a, n), 0x80_0000),
{
    lemma_dot_bound(a, n, 0x20000, 0x20000);
    let d = dot_s(a, n);
    assert(-0x10_0000 <= d <= 0x10_0000);
    crate::fx::lemma_fmul_s_bound(n.x@, 2 * d, 0x20000, 0x20_0000);
    crate::fx::lemma_fmul_s_bound(n.y@, 2 * d, 0x20000, 0x20_0000);
    crate::fx::lemma_fmul_s_bound(n.z@, 2 * d, 0x20000, 0x20_0000);
}

/// Subtracting any vector from itself leaves a vector of zero
/// magnitude.
pub proof fn lemma_sub_self_zero_magnitude(v: HVector)
    ensures
        mag_s(sub_v(v, v)) == 0,
{
    let d = sub_v(v, v);
    assert(d.x@ == 0 && d.y@ == 0 && d.z@ == 0);
    assert(mag_sq_int(d) == 0);
    crate::fx::lemma_sqrt_floor_is(0, 0);
}

/// Adding a vector to its reverse leaves a vector of zero magnitude;
/// reversal is exact on the fixed-point grid.
pub proof fn lemma_add_reverse_zero_magnitude(v: HVector)
    requires
        fits_i64(-v.x@),
        fits_i64(-v.y@),
        fits_i64(-v.z@),
    ensures
        mag_s(add_v(v, neg_v(v))) == 0,
{
    let d = add_v(v, neg_v(v));
    assert(d.x@ == 0 && d.y@ == 0 && d.z@ == 0);
    assert(mag_sq_int(d) == 0);
    crate::fx::lemma_sqrt_floor_is(0, 0);
}

/// Normalizing any vector of magnitude at least one yields a vector of
/// magnitude 1.0, within a tolerance of four raw units (each coordinate
/// rounds down by less than one raw unit, and the input magnitude itself
/// is a rounded square root). Vectors shorter than 1.0 lose relatively
/// more to the grid and are excluded.
pub proof fn lemma_normalized_unit_magnitude(v: HVector)
    requires
        mag_s(v) >= SCALE,
    ensures
        SCALE - 4 <= mag_s(normalized_v(v)) <= SCALE + 4,
{
    let n = mag_sq_int(v);
    assert(0 <= v.x@ * v.x@ && 0 <= v.y@ * v.y@ && 0 <= v.z@ * v.z@) by (nonlinear_arith);
    crate::fx::lemma_sqrt_floor_exists(n);
    let m = mag_s(v);
    lemma_abs_le_sqrt(v.x@, n, m);
    lemma_abs_le_sqrt(v.y@, n, m);
    lemma_abs_le_sqrt(v.z@, n, m);
    vstd::arithmetic::div_mod::lemma_fundamental_div_mod(v.x@ * 65536, m);
    vstd::arithmetic::div_mod::lemma_fundamental_div_mod(v.y@ * 65536, m);
    vstd::arithmetic::div_mod::lemma_fundamental_div_mod(v.z@ * 65536, m);
    vstd::arithmetic::div_mod::lemma_mod_bound(v.x@ * 65536, m);
    vstd::arithmetic::div_mod::lemma_mod_bound(v.y@ * 65536, m);
    vstd::arithmetic::div_mod::lemma_mod_bound(v.z@ * 65536, m);
    let x1 = floor_div(v.x@ * 65536, m);
    let y1 = floor_div(v.y@ * 65536, m);
    let z1 = floor_div(v.z@ * 65536, m);
    let r1 = (v.x@ * 65536) % m;
    let r2 = (v.y@ * 65536) % m;
    let r3 = (v.z@ * 65536) % m;
    assert(v.x@ * 65536 == m * x1 + r1 && v.y@ * 65536 == m * y1 + r2 && v.z@ * 65536 == m * z1
        + r3);
    // per coordinate: the scaled square deviates from the exact square by
    // at most 2*S*m^2 below and (2*S + 1)*m^2 above
    lemma_norm_comp_square(v.x@, m, x1, r1);
    lemma_norm_comp_square(v.y@, m, y1, r2);
    lemma_norm_comp_square(v.z@, m, z1, r3);
    let t = (m * m) * (x1 * x1) + (m * m) * (y1 * y1) + (m * m) * (z1 * z1);
    // summed: S^2 n - 6 S m^2 <= t <= S^2 n + 6 S m^2 + 3 m^2
    assert(65536 * 65536 * n - 6 * 65536 * (m * m) <= t <= 65536 * 65536 * n + 6 * 65536 * (m * m)
        + 3 * (m * m)) by (nonlinear_arith)
        requires
            (m * m) * (x1 * x1) >= 65536 * 65536 * (v.x@ * v.x@) - 2 * 65536 * (m * m) && (m * m)
                * (x1 * x1) <= 65536 * 65536 * (v.x@ * v.x@) + 2 * 65536 * (m * m) + (m * m),
            (m * m) * (y1 * y1) >= 65536 * 65536 * (v.y@ * v.y@) - 2 * 65536 * (m * m) && (m * m)
                * (y1 * y1) <= 65536 * 65536 * (v.y@ * v.y@) + 2 * 65536 * (m * m) + (m * m),
            (m * m) * (z1 * z1) >= 65536 * 65536 * (v.z@ * v.z@) - 2 * 65536 * (m * m) && (m * m)
                * (z1 * z1) <= 65536 * 65536 * (v.z@ * v.z@) + 2 * 65536 * (m * m) + (m * m),
            n == v.x@ * v.x@ + v.y@ * v.y@ + v.z@ * v.z@,
            t == (m * m) * (x1 * x1) + (m * m) * (y1 * y1) + (m * m) * (z1 * z1),
    ;
    let n2 = x1 * x1 + y1 * y1 + z1 * z1;
    // divide through by m^2, using m^2 <= n < (m+1)^2 and m >= S
    assert(65536 * 65536 - 6 * 65536 <= n2 <= 65536 * 65536 + 9 * 65536 + 3) by (nonlinear_arith)
        requires
            t == (m * m) * (x1 * x1) + (m * m) * (y1 * y1) + (m * m) * (z1 * z1),
            n2 == x1 * x1 + y1 * y1 + z1 * z1,
            65536 * 65536 * n - 6 * 65536 * (m * m) <= t <= 65536 * 65536 * n + 6 * 65536 * (m
                * m) + 3 * (m * m),
            m * m <= n < (m + 1) * (m + 1),
            m >= 65536,
    ;
    // the magnitude of the normalized vector then brackets 1.0
    let nv = normalized_v(v);
    lemma_unit_ratio(v.x@, m);
    lemma_unit_ratio(v.y@, m);
    lemma_unit_ratio(v.z@, m);
    assert(nv.x@ == x1 && nv.y@ == y1 && nv.z@ == z1);
    assert(mag_sq_int(nv) == n2);
    crate::fx::lemma_sqrt_floor_exists(n2);
    let m2 = mag_s(nv);
    assert(65536 - 4 <= m2 <= 65536 + 4) by (nonlinear_arith)
        requires
            m2 * m2 <= n2 < (m2 + 1) * (m2 + 1),
            0 <= m2,
            65536 * 65536 - 6 * 65536 <= n2 <= 65536 * 65536 + 9 * 65536 + 3,
    ;
}

/// One coordinate's contribution: the floor-divided square against the
/// exact square, both scaled by the squared magnitude.
proof fn lemma_norm_comp_square(x: int, m: int, q: int, r: int)
    requires
        x * 65536 == m * q + r,
        0 <= r < m,
        -m <= x <= m,
        1 <= m,
    ensures
        (m * m) * (q * q) >= 65536 * 65536 * (x * x) - 2 * 65536 * (m * m),
        (m * m) * (q * q) <= 65536 * 65536 * (x * x) + 2 * 65536 * (m * m) + (m * m),
{
    let c = (x * 65536) * r;
    assert((m * m) * (q * q) == 65536 * 65536 * (x * x) - 2 * c + r * r) by (nonlinear_arith)
        requires
            x * 65536 == m * q + r,
            c == (x * 65536) * r,
    ;
    assert(-(65536 * (m * m)) <= c <= 65536 * (m * m)) by (nonlinear_arith)
        requires
            c == (x * 65536) * r,
            -m <= x <= m,
            0 <= r < m,
            1 <= m,
    ;
    assert(0 <= r * r <= m * m) by (nonlinear_arith)
        requires 0 <= r < m,
    ;
    assert((m * m) * (q * q) >= 65536 * 65536 * (x * x) - 2 * 65536 * (m * m) && (m * m) * (q * q)
        <= 65536 * 65536 * (x * x) + 2 * 65536 * (m * m) + (m * m)) by (nonlinear_arith)
        requires
            (m * m) * (q * q) == 65536 * 65536 * (x * x) - 2 * c + r * r,
            -(65536 * (m * m)) <= c <= 65536 * (m * m),
            0 <= r * r <= m * m,
    ;
}

/// The normal points along exactly one axis with unit length.
pub open spec fn axis_unit_normal(n: HVector) -> bool {
    ||| (n.x@ == SCALE || n.x@ == -(SCALE as int)) && n.y@ == 0 && n.z@ == 0
    ||| n.x@ == 0 && (n.y@ == SCALE || n.y@ == -(SCALE as int)) && n.z@ == 0
    ||| n.x@ == 0 && n.y@ == 0 && (n.z@ == SCALE || n.z@ == -(SCALE as int))
}

/// Reflecting twice about the same axis-aligned unit normal restores the
/// original coordinates exactly. (About a general unit normal the double
/// reflection is exact only up to fixed-point rounding.)
pub proof fn lemma_reflect_involution_axis(v: HVector, n: HVector)
    requires
        axis_unit_normal(n),
        bounded3(v, 0x1000_0000_0000_0000),
    ensures
        reflect_v(reflect_v(v, n), n).x == v.x,
        reflect_v(reflect_v(v, n), n).y == v.y,
        reflect_v(reflect_v(v, n), n).z == v.z,
{
    lemma_axis_reflect(v, n);
    let r1 = reflect_v(v, n);
    lemma_axis_reflect(r1, n);
}

/// One axis-aligned reflection negates the aligned coordinate and keeps
/// the others.
proof fn lemma_axis_reflect(v: HVector, n: HVector)
    requires
        axis_unit_normal(n),
        bounded3(v, 0x2000_0000_0000_0000),
    ensures
        n.x@ != 0 ==> reflect_v(v, n) == (HVector {
            x: Fx { raw: (-v.x@) as i64 },
            y: v.y,
            z: v.z,
            w: Fx { raw: SCALE },
        }),
        n.y@ != 0 ==> reflect_v(v, n) == (HVector {
            x: v.x,
            y: Fx { raw: (-v.y@) as i64 },
            z: v.z,
            w: Fx { raw: SCALE },
        }),
        n.z@ != 0 ==> reflect_v(v, n) == (HVector {
            x: v.x,
            y: v.y,
            z: Fx { raw: (-v.z@) as i64 },
            w: Fx { raw: SCALE },
        }),
        bounded3(reflect_v(v, n), 0x2000_0000_0000_0000),
{
    vstd::arithmetic::div_mod::lemma_div_multiples_vanish(v.x@, 65536);
    vstd::arithmetic::div_mod::lemma_div_multiples_vanish(-v.x@, 65536);
    vstd::arithmetic::div_mod::lemma_div_multiples_vanish(v.y@, 65536);
    vstd::arithmetic::div_mod::lemma_div_multiples_vanish(-v.y@, 65536);
    vstd::arithmetic::div_mod::lemma_div_multiples_vanish(v.z@, 65536);
    vstd::arithmetic::div_mod::lemma_div_multiples_vanish(-v.z@, 65536);
    let d = dot_s(v, n);
    if n.x@ != 0 {
        lemma_axis_component(v.x@, v.y@, v.z@, n.x@, n.y@, n.z@);
        assert(d == if n.x@ == SCALE { v.x@ } else { -v.x@ });
        lemma_axis_products(v.x@, n.x@, n.y@, n.z@, d);
        assert(fmul_s(n.x@, 2 * d) == 2 * v.x@);
        assert(fmul_s(n.y@, 2 * d) == 0 && fmul_s(n.z@, 2 * d) == 0) by {
            vstd::arithmetic::div_mod::lemma_div_of0(65536);
        }
    } else if n.y@ != 0 {
        lemma_axis_component(v.y@, v.x@, v.z@, n.y@, n.x@, n.z@);
        assert(d == if n.y@ == SCALE { v.y@ } else { -v.y@ });
        lemma_axis_products(v.y@, n.y@, n.x@, n.z@, d);
        assert(fmul_s(n.y@, 2 * d) == 2 * v.y@);
        assert(fmul_s(n.x@, 2 * d) == 0 && fmul_s(n.z@, 2 * d) == 0) by {
            vstd::arithmetic::div_mod::lemma_div_of0(65536);
        }
    } else {
        lemma_axis_component(v.z@, v.x@, v.y@, n.z@, n.x@, n.y@);
        assert(d == if n.z@ == SCALE { v.z@ } else { -v.z@ });
        lemma_axis_products(v.z@, n.z@, n.x@, n.y@, d);
        assert(fmul_s(n.z@, 2 * d) == 2 * v.z@);
        assert(fmul_s(n.x@, 2 * d) == 0 && fmul_s(n.y@, 2 * d) == 0) by {
            vstd::arithmetic::div_mod::lemma_div_of0(65536);
        }
    }
}

/// The dot product against an axis unit normal is the aligned component
/// up to sign.
proof fn lemma_axis_component(va: int, vb: int, vc: int, na: int, nb: int, nc: int)
    requires
        na == 65536 || na == -65536,
        nb == 0,
        nc == 0,
    ensures
        va * na + vb * nb + vc * nc == 65536 * (if na == 65536 { va } else { -va }),
        vb * nb == 0,
        vc * nc == 0,
{
    assert(va * na + vb * nb + vc * nc == 65536 * (if na == 65536 { va } else { -va })
        && vb * nb == 0 && vc * nc == 0) by (nonlinear_arith)
        requires
            na == 65536 || na == -65536,
            nb == 0,
            nc == 0,
    ;
    vstd::arithmetic::div_mod::lemma_div_multiples_vanish(va, 65536);
    vstd::arithmetic::div_mod::lemma_div_multiples_vanish(-va, 65536);
}

/// Multiplying the doubled aligned component back through the axis
/// normal squares away the sign.
proof fn lemma_axis_products(va: int, na: int, nb: int, nc: int, d: int)
    requires
        na == 65536 && d == va || na == -65536 && d == -va,
        nb == 0,
        nc == 0,
    ensures
        na * (2 * d) == 65536 * (2 * va),
        nb * (2 * d) == 0,
        nc * (2 * d) == 0,
        fmul_s(na, 2 * d) == 2 * va,
{
    assert(na * (2 * d) == 65536 * (2 * va) && nb * (2 * d) == 0 && nc * (2 * d) == 0)
        by (nonlinear_arith)
        requires
            na == 65536 && d == va || na == -65536 && d == -va,
            nb == 0,
            nc == 0,
    ;
    vstd::arithmetic::div_mod::lemma_div_multiples_vanish(2 * va, 65536);
}

/// A plain 3-component vector, the unhomogenised form.
#[derive(Clone, Copy, PartialEq, Eq, Structural, Debug)]
pub struct Vector3 {
    pub x: Fx,
    pub y: Fx,
    pub z: Fx,
}

impl Vector3 {
    pub fn new(v: [Fx; 3]) -> (r: Vector3)
        ensures
            r.x == v[0] && r.y == v[1] && r.z == v[2],
    {
        Vector3 { x: v[0], y: v[1], z: v[2] }
    }

    pub fn to_homo_vector(&self) -> (r: HVector)
        ensures
            r.x == self.x && r.y == self.y && r.z == self.z && r.w@ == SCALE,
    {
        HVector { x: self.x, y: self.y, z: self.z, w: Fx::one() }
    }

    pub fn sub(self, rhs: Vector3) -> (r: Vector3)
        requires
            fits_i64(self.x@ - rhs.x@),
            fits_i64(self.y@ - rhs.y@),
            fits_i64(self.z@ - rhs.z@),
        ensures
            r.x@ == self.x@ - rhs.x@,
            r.y@ == self.y@ - rhs.y@,
            r.z@ == self.z@ - rhs.z@,
    {
        Vector3 { x: self.x.sub(rhs.x), y: self.y.sub(rhs.y), z: self.z.sub(rhs.z) }
    }
}

} // verus!
