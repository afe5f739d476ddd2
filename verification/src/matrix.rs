//! Affine transforms between world space and object space.
//!
//! A transform is authored as independent axis scales, a translation and
//! two axis rotations (about Y, then Z). An angle is carried as its sine
//! and cosine on the fixed-point grid, which is what the matrices read of
//! it; negating the sine gives the inverse rotation exactly. Construction
//! composes `actual = T * Rz * Ry * S` (object to world) and the inverse
//! `S' * Ry' * Rz' * T'` analytically, entry by entry, rather than by
//! generic inversion. The scene's depth axis points away from the camera,
//! so the translation negates the authored `z` position, as the matching
//! light constructor does.

use vstd::prelude::*;
use crate::fx::{
    fdiv_s, floor_div, fmul_s, lemma_floor_div_denom_bound, lemma_floor_div_range, mul_bounded,
    Fx, SCALE,
};
use crate::ray::Ray;
use crate::vector::{bounded3, fits_dot, mag_s, normalized_v, HVector};

verus! {

/// Magnitude cap on a sine or cosine: 1.0 plus rounding slack.
pub const ANGLE_LIMIT: i64 = 0x11000;

/// Axis scale factors lie between 1/256 and 256 in magnitude.
pub const SCALE_FACTOR_MIN: i64 = 0x100;

pub const SCALE_FACTOR_MAX: i64 = 0x100_0000;

/// Translations stay within 1024 world units per axis.
pub const POSITION_LIMIT: i64 = 0x400_0000;

/// Every entry of a well-formed matrix stays below this magnitude.
pub const MAT_LIMIT: i64 = 0x10_0000_0000;

/// Points handed to a matrix application stay below this magnitude.
pub const APPLY_LIMIT: i64 = 0x100_0000_0000;

/// An angle, given by its sine and cosine on the fixed-point grid.
#[derive(Clone, Copy, PartialEq, Eq, Structural, Debug)]
pub struct Rotation {
    pub sin: Fx,
    pub cos: Fx,
}

pub open spec fn wf_rotation(r: Rotation) -> bool {
    &&& -(ANGLE_LIMIT as int) <= r.sin@ <= ANGLE_LIMIT as int
    &&& -(ANGLE_LIMIT as int) <= r.cos@ <= ANGLE_LIMIT as int
}

/// The authoring parameters of a transform: per-axis scale, translation,
/// and rotations about Y then Z.
#[derive(Clone, Copy, Debug)]
pub struct AffineTransformation {
    pub scale: [Fx; 3],
    pub position: [Fx; 3],
    pub orientation: (Rotation, Rotation),
}

pub open spec fn wf_scale_factor(s: int) -> bool {
    (SCALE_FACTOR_MIN as int <= s <= SCALE_FACTOR_MAX as int) || (-(SCALE_FACTOR_MAX as int) <= s
        <= -(SCALE_FACTOR_MIN as int))
}

pub open spec fn wf_transformation(t: AffineTransformation) -> bool {
    &&& wf_scale_factor(t.scale[0]@)
    &&& wf_scale_factor(t.scale[1]@)
    &&& wf_scale_factor(t.scale[2]@)
    &&& -(POSITION_LIMIT as int) <= t.position[0]@ <= POSITION_LIMIT as int
    &&& -(POSITION_LIMIT as int) <= t.position[1]@ <= POSITION_LIMIT as int
    &&& -(POSITION_LIMIT as int) <= t.position[2]@ <= POSITION_LIMIT as int
    &&& wf_rotation(t.orientation.0)
    &&& wf_rotation(t.orientation.1)
}

/// The default transform as a spec value: unit scale, no rotation, five
/// units down the depth axis.
pub open spec fn default_transformation_s() -> AffineTransformation {
    AffineTransformation {
        scale: [Fx { raw: 65536 }, Fx { raw: 65536 }, Fx { raw: 65536 }],
        position: [Fx { raw: 0 }, Fx { raw: 0 }, Fx { raw: 327680 }],
        orientation: (
            Rotation { sin: Fx { raw: 0 }, cos: Fx { raw: 65536 } },
            Rotation { sin: Fx { raw: 0 }, cos: Fx { raw: 65536 } },
        ),
    }
}

impl Default for AffineTransformation {
    /// Unit scale, no rotation, five units down the depth axis.
    fn default() -> (r: AffineTransformation)
        ensures
            r.scale[0]@ == SCALE && r.scale[1]@ == SCALE && r.scale[2]@ == SCALE,
            r.position[0]@ == 0 && r.position[1]@ == 0 && r.position[2]@ == 5 * SCALE as int,
            r.orientation.0.sin@ == 0 && r.orientation.0.cos@ == SCALE,
            r.orientation.1.sin@ == 0 && r.orientation.1.cos@ == SCALE,
            wf_transformation(r),
            r == default_transformation_s(),
    {
        let identity = Rotation { sin: Fx::zero(), cos: Fx::one() };
        let r = AffineTransformation {
            scale: [Fx::one(), Fx::one(), Fx::one()],
            position: [Fx::zero(), Fx::zero(), Fx::from_int(5)],
            orientation: (identity, identity),
        };
        proof {
            assert(r.scale =~= default_transformation_s().scale);
            assert(r.position =~= default_transformation_s().position);
        }
        r
    }
}

/// A 4 by 4 fixed-point matrix, row major.
#[derive(Clone, Copy, PartialEq, Eq, Structural, Debug)]
pub struct Mat4 {
    pub m00: Fx, pub m01: Fx, pub m02: Fx, pub m03: Fx,
    pub m10: Fx, pub m11: Fx, pub m12: Fx, pub m13: Fx,
    pub m20: Fx, pub m21: Fx, pub m22: Fx, pub m23: Fx,
    pub m30: Fx, pub m31: Fx, pub m32: Fx, pub m33: Fx,
}

pub open spec fn mat_bounded(m: Mat4, b: int) -> bool {
    &&& -b <= m.m00@ <= b && -b <= m.m01@ <= b && -b <= m.m02@ <= b && -b <= m.m03@ <= b
    &&& -b <= m.m10@ <= b && -b <= m.m11@ <= b && -b <= m.m12@ <= b && -b <= m.m13@ <= b
    &&& -b <= m.m20@ <= b && -b <= m.m21@ <= b && -b <= m.m22@ <= b && -b <= m.m23@ <= b
    &&& -b <= m.m30@ <= b && -b <= m.m31@ <= b && -b <= m.m32@ <= b && -b <= m.m33@ <= b
}

/// The scalar with the given raw units (meaningful when `x` fits `i64`).
pub open spec fn fxv(x: int) -> Fx {
    Fx { raw: x as i64 }
}

/// One row of a matrix application: the scaled dot product of a row with a
/// homogeneous column vector.
pub open spec fn apply_row_s(a: int, b: int, c: int, d: int, x: int, y: int, z: int, w: int) -> int {
    floor_div(a * x + b * y + c * z + d * w, SCALE as int)
}

/// A matrix applied to a homogeneous point (all four components).
pub open spec fn apply_point_s(m: Mat4, p: HVector) -> HVector {
    HVector {
        x: fxv(apply_row_s(m.m00@, m.m01@, m.m02@, m.m03@, p.x@, p.y@, p.z@, p.w@)),
        y: fxv(apply_row_s(m.m10@, m.m11@, m.m12@, m.m13@, p.x@, p.y@, p.z@, p.w@)),
        z: fxv(apply_row_s(m.m20@, m.m21@, m.m22@, m.m23@, p.x@, p.y@, p.z@, p.w@)),
        w: fxv(apply_row_s(m.m30@, m.m31@, m.m32@, m.m33@, p.x@, p.y@, p.z@, p.w@)),
    }
}

/// The transpose of a matrix's upper-left 3 by 3 block applied to a
/// direction; `w` is re-fixed to 1.0. Applying the inverse this way is
/// the inverse-transpose transform that surface normals need under
/// non-uniform scaling.
pub open spec fn apply_vec_transposed_s(m: Mat4, p: HVector) -> HVector {
    HVector {
        x: fxv(floor_div(m.m00@ * p.x@ + m.m10@ * p.y@ + m.m20@ * p.z@, SCALE as int)),
        y: fxv(floor_div(m.m01@ * p.x@ + m.m11@ * p.y@ + m.m21@ * p.z@, SCALE as int)),
        z: fxv(floor_div(m.m02@ * p.x@ + m.m12@ * p.y@ + m.m22@ * p.z@, SCALE as int)),
        w: Fx { raw: SCALE },
    }
}

/// A matrix's upper-left 3 by 3 block applied to a direction; `w` is
/// re-fixed to 1.0.
pub open spec fn apply_vec_s(m: Mat4, p: HVector) -> HVector {
    HVector {
        x: fxv(floor_div(m.m00@ * p.x@ + m.m01@ * p.y@ + m.m02@ * p.z@, SCALE as int)),
        y: fxv(floor_div(m.m10@ * p.x@ + m.m11@ * p.y@ + m.m12@ * p.z@, SCALE as int)),
        z: fxv(floor_div(m.m20@ * p.x@ + m.m21@ * p.y@ + m.m22@ * p.z@, SCALE as int)),
        w: Fx { raw: SCALE },
    }
}

/// The affine bottom row `(0, 0, 0, 1)` that point application expects.
pub open spec fn bottom_row_std(m: Mat4) -> bool {
    m.m30@ == 0 && m.m31@ == 0 && m.m32@ == 0 && m.m33@ == SCALE
}

/// The object-to-world matrix `T * Rz * Ry * S` of a transform, entry by
/// entry as the construction computes it.
pub open spec fn actual_of(t: AffineTransformation) -> Mat4 {
    let sy = t.orientation.0.sin@;
    let cy = t.orientation.0.cos@;
    let sz = t.orientation.1.sin@;
    let cz = t.orientation.1.cos@;
    let s0 = t.scale[0]@;
    let s1 = t.scale[1]@;
    let s2 = t.scale[2]@;
    Mat4 {
        m00: fxv(fmul_s(fmul_s(cz, cy), s0)),
        m01: fxv(fmul_s(-sz, s1)),
        m02: fxv(fmul_s(fmul_s(cz, sy), s2)),
        m03: t.position[0],
        m10: fxv(fmul_s(fmul_s(sz, cy), s0)),
        m11: fxv(fmul_s(cz, s1)),
        m12: fxv(fmul_s(fmul_s(sz, sy), s2)),
        m13: t.position[1],
        m20: fxv(fmul_s(-sy, s0)),
        m21: Fx { raw: 0 },
        m22: fxv(fmul_s(cy, s2)),
        m23: fxv(-t.position[2]@),
        m30: Fx { raw: 0 },
        m31: Fx { raw: 0 },
        m32: Fx { raw: 0 },
        m33: Fx { raw: SCALE },
    }
}

/// The world-to-object matrix `S' * Ry' * Rz' * T'`, entry by entry.
pub open spec fn inverse_of(t: AffineTransformation) -> Mat4 {
    let sy = t.orientation.0.sin@;
    let cy = t.orientation.0.cos@;
    let sz = t.orientation.1.sin@;
    let cz = t.orientation.1.cos@;
    // Ry' * Rz', the inverse rotation (angles negated, composed in the
    // opposite order).
    let e00 = fmul_s(cy, cz);
    let e01 = fmul_s(cy, sz);
    let e02 = -sy;
    let e10 = -sz;
    let e11 = cz;
    let e12 = 0int;
    let e20 = fmul_s(sy, cz);
    let e21 = fmul_s(sy, sz);
    let e22 = cy;
    // The inverse translation column, rotated: rows dotted with
    // (-p0, -p1, p2).
    let c0 = floor_div(e00 * -t.position[0]@ + e01 * -t.position[1]@ + e02 * t.position[2]@,
        SCALE as int);
    let c1 = floor_div(e10 * -t.position[0]@ + e11 * -t.position[1]@ + e12 * t.position[2]@,
        SCALE as int);
    let c2 = floor_div(e20 * -t.position[0]@ + e21 * -t.position[1]@ + e22 * t.position[2]@,
        SCALE as int);
    // The inverse scale divides each row.
    let i0 = fdiv_s(SCALE as int, t.scale[0]@);
    let i1 = fdiv_s(SCALE as int, t.scale[1]@);
    let i2 = fdiv_s(SCALE as int, t.scale[2]@);
    Mat4 {
        m00: fxv(fmul_s(i0, e00)),
        m01: fxv(fmul_s(i0, e01)),
        m02: fxv(fmul_s(i0, e02)),
        m03: fxv(fmul_s(i0, c0)),
        m10: fxv(fmul_s(i1, e10)),
        m11: fxv(fmul_s(i1, e11)),
        m12: fxv(fmul_s(i1, e12)),
        m13: fxv(fmul_s(i1, c1)),
        m20: fxv(fmul_s(i2, e20)),
        m21: fxv(fmul_s(i2, e21)),
        m22: fxv(fmul_s(i2, e22)),
        m23: fxv(fmul_s(i2, c2)),
        m30: Fx { raw: 0 },
        m31: Fx { raw: 0 },
        m32: Fx { raw: 0 },
        m33: Fx { raw: SCALE },
    }
}

/// Floor division of a four-product sum by `SCALE`, for one row of a
/// matrix application.
fn sum4_div_scale(pa: i128, pb: i128, pc: i128, pd: i128) -> (q: i64)
    requires
        -0x1000_0000_0000_0000_0000 <= pa <= 0x1000_0000_0000_0000_0000,
        -0x1000_0000_0000_0000_0000 <= pb <= 0x1000_0000_0000_0000_0000,
        -0x1000_0000_0000_0000_0000 <= pc <= 0x1000_0000_0000_0000_0000,
        -0x1000_0000_0000_0000_0000 <= pd <= 0x1000_0000_0000_0000_0000,
    ensures
        q == floor_div(pa + pb + pc + pd, SCALE as int),
{
    let p: i128 = pa + pb + pc + pd;
    proof {
        lemma_floor_div_range(p as int, 0x4000_0000_0000_0000_0000, 65536);
    }
    let q: i128 = crate::fx::div_floor_by_scale(p);
    q as i64
}

/// A product of a matrix entry and a point component stays within the
/// range that `sum4_div_scale` accepts.
proof fn lemma_apply_prod(a: int, b: int)
    requires
        -(MAT_LIMIT as int) <= a <= MAT_LIMIT as int,
        -(APPLY_LIMIT as int) <= b <= APPLY_LIMIT as int,
    ensures
        -0x1000_0000_0000_0000_0000 <= a * b <= 0x1000_0000_0000_0000_0000,
{
    assert(-0x1000_0000_0000_0000_0000 <= a * b <= 0x1000_0000_0000_0000_0000)
        by (nonlinear_arith)
        requires
            -0x10_0000_0000 <= a <= 0x10_0000_0000,
            -0x100_0000_0000 <= b <= 0x100_0000_0000,
    ;
}

/// An object-to-world matrix with its precomputed world-to-object inverse.
#[derive(Clone, Copy, PartialEq, Eq, Structural, Debug)]
pub struct AffineMatrix {
    pub actual: Mat4,
    pub inverse: Mat4,
}

impl AffineMatrix {
    pub open spec fn wf(&self) -> bool {
        &&& mat_bounded(self.actual, MAT_LIMIT as int)
        &&& mat_bounded(self.inverse, MAT_LIMIT as int)
        &&& bottom_row_std(self.actual)
        &&& bottom_row_std(self.inverse)
    }

    /// Builds the forward and inverse matrices of a transform.
    pub fn new(transformation: AffineTransformation) -> (r: AffineMatrix)
        requires
            wf_transformation(transformation),
        ensures
            r.actual == actual_of(transformation),
            r.inverse == inverse_of(transformation),
            r.wf(),
    {
        let t = &transformation;
        let sy = t.orientation.0.sin;
        let cy = t.orientation.0.cos;
        let sz = t.orientation.1.sin;
        let cz = t.orientation.1.cos;
        let s0 = t.scale[0];
        let s1 = t.scale[1];
        let s2 = t.scale[2];
        let p0 = t.position[0];
        let p1 = t.position[1];
        let p2 = t.position[2];
        let ghost al = ANGLE_LIMIT as int;
        let ghost rl = 0x12100int;
        let ghost sl = SCALE_FACTOR_MAX as int;

        // Forward: T * Rz * Ry * S.
        let czcy = mul_bounded(cz, cy, Ghost(al), Ghost(al));
        let czsy = mul_bounded(cz, sy, Ghost(al), Ghost(al));
        let szcy = mul_bounded(sz, cy, Ghost(al), Ghost(al));
        let szsy = mul_bounded(sz, sy, Ghost(al), Ghost(al));
        let actual = Mat4 {
            m00: mul_bounded(czcy, s0, Ghost(rl), Ghost(sl)),
            m01: mul_bounded(sz.neg(), s1, Ghost(al), Ghost(sl)),
            m02: mul_bounded(czsy, s2, Ghost(rl), Ghost(sl)),
            m03: p0,
            m10: mul_bounded(szcy, s0, Ghost(rl), Ghost(sl)),
            m11: mul_bounded(cz, s1, Ghost(al), Ghost(sl)),
            m12: mul_bounded(szsy, s2, Ghost(rl), Ghost(sl)),
            m13: p1,
            m20: mul_bounded(sy.neg(), s0, Ghost(al), Ghost(sl)),
            m21: Fx::zero(),
            m22: mul_bounded(cy, s2, Ghost(al), Ghost(sl)),
            m23: p2.neg(),
            m30: Fx::zero(),
            m31: Fx::zero(),
            m32: Fx::zero(),
            m33: Fx::one(),
        };

        // Inverse: S' * Ry' * Rz' * T'.
        let e00 = mul_bounded(cy, cz, Ghost(al), Ghost(al));
        let e01 = mul_bounded(cy, sz, Ghost(al), Ghost(al));
        let e02 = sy.neg();
        let e10 = sz.neg();
        let e11 = cz;
        let e12 = Fx::zero();
        let e20 = mul_bounded(sy, cz, Ghost(al), Ghost(al));
        let e21 = mul_bounded(sy, sz, Ghost(al), Ghost(al));
        let e22 = cy;
        let np0 = p0.neg();
        let np1 = p1.neg();
        proof {
            lemma_apply_prod(e00@, np0@);
            lemma_apply_prod(e01@, np1@);
            lemma_apply_prod(e02@, p2@);
            lemma_apply_prod(e10@, np0@);
            lemma_apply_prod(e11@, np1@);
            lemma_apply_prod(e12@, p2@);
            lemma_apply_prod(e20@, np0@);
            lemma_apply_prod(e21@, np1@);
            lemma_apply_prod(e22@, p2@);
        }
        let c0 = Fx {
            raw: crate::vector::sum3_div_scale(
                (e00.raw as i128) * (np0.raw as i128),
                (e01.raw as i128) * (np1.raw as i128),
                (e02.raw as i128) * (p2.raw as i128),
            ),
        };
        let c1 = Fx {
            raw: crate::vector::sum3_div_scale(
                (e10.raw as i128) * (np0.raw as i128),
                (e11.raw as i128) * (np1.raw as i128),
                (e12.raw as i128) * (p2.raw as i128),
            ),
        };
        let c2 = Fx {
            raw: crate::vector::sum3_div_scale(
                (e20.raw as i128) * (np0.raw as i128),
                (e21.raw as i128) * (np1.raw as i128),
                (e22.raw as i128) * (p2.raw as i128),
            ),
        };
        proof {
            assert(-0xd8c_0000_0000 <= e00@ * np0@ + e01@ * np1@ + e02@ * p2@ <= 0xd8c_0000_0000)
                by (nonlinear_arith)
                requires
                    -0x12100 <= e00@ <= 0x12100,
                    -0x12100 <= e01@ <= 0x12100,
                    -0x11000 <= e02@ <= 0x11000,
                    -0x400_0000 <= np0@ <= 0x400_0000,
                    -0x400_0000 <= np1@ <= 0x400_0000,
                    -0x400_0000 <= p2@ <= 0x400_0000,
            ;
            assert(-0xd8c_0000_0000 <= e10@ * np0@ + e11@ * np1@ + e12@ * p2@ <= 0xd8c_0000_0000)
                by (nonlinear_arith)
                requires
                    -0x11000 <= e10@ <= 0x11000,
                    -0x11000 <= e11@ <= 0x11000,
                    e12@ == 0,
                    -0x400_0000 <= np0@ <= 0x400_0000,
                    -0x400_0000 <= np1@ <= 0x400_0000,
                    -0x400_0000 <= p2@ <= 0x400_0000,
            ;
            assert(-0xd8c_0000_0000 <= e20@ * np0@ + e21@ * np1@ + e22@ * p2@ <= 0xd8c_0000_0000)
                by (nonlinear_arith)
                requires
                    -0x12100 <= e20@ <= 0x12100,
                    -0x12100 <= e21@ <= 0x12100,
                    -0x11000 <= e22@ <= 0x11000,
                    -0x400_0000 <= np0@ <= 0x400_0000,
                    -0x400_0000 <= np1@ <= 0x400_0000,
                    -0x400_0000 <= p2@ <= 0x400_0000,
            ;
            lemma_floor_div_range(e00@ * np0@ + e01@ * np1@ + e02@ * p2@, 0xd8c_0000_0000, 65536);
            lemma_floor_div_range(e10@ * np0@ + e11@ * np1@ + e12@ * p2@, 0xd8c_0000_0000, 65536);
            lemma_floor_div_range(e20@ * np0@ + e21@ * np1@ + e22@ * p2@, 0xd8c_0000_0000, 65536);
        }
        let ghost il = 0x100_0001int;
        let ghost cl = 0xd8c_0000int;
        proof {
            lemma_floor_div_denom_bound(0x1_0000_0000, s0@, 0x100);
            lemma_floor_div_denom_bound(0x1_0000_0000, s1@, 0x100);
            lemma_floor_div_denom_bound(0x1_0000_0000, s2@, 0x100);
        }
        let i0 = Fx::one().div(s0);
        let i1 = Fx::one().div(s1);
        let i2 = Fx::one().div(s2);
        let inverse = Mat4 {
            m00: mul_bounded(i0, e00, Ghost(il), Ghost(rl)),
            m01: mul_bounded(i0, e01, Ghost(il), Ghost(rl)),
            m02: mul_bounded(i0, e02, Ghost(il), Ghost(al)),
            m03: mul_bounded(i0, c0, Ghost(il), Ghost(cl)),
            m10: mul_bounded(i1, e10, Ghost(il), Ghost(al)),
            m11: mul_bounded(i1, e11, Ghost(il), Ghost(al)),
            m12: mul_bounded(i1, e12, Ghost(il), Ghost(al)),
            m13: mul_bounded(i1, c1, Ghost(il), Ghost(cl)),
            m20: mul_bounded(i2, e20, Ghost(il), Ghost(rl)),
            m21: mul_bounded(i2, e21, Ghost(il), Ghost(rl)),
            m22: mul_bounded(i2, e22, Ghost(il), Ghost(al)),
            m23: mul_bounded(i2, c2, Ghost(il), Ghost(cl)),
            m30: Fx::zero(),
            m31: Fx::zero(),
            m32: Fx::zero(),
            m33: Fx::one(),
        };
        let r = AffineMatrix { actual, inverse };
        proof {
            assert(r.actual == actual_of(transformation));
            assert(r.inverse == inverse_of(transformation));
        }
        r
    }

    /// Applies the stored inverse: world space to object space.
    pub fn shift_point(&self, point: &HVector) -> (r: HVector)
        requires
            self.wf(),
            bounded3(*point, APPLY_LIMIT as int),
            -(APPLY_LIMIT as int) <= point.w@ <= APPLY_LIMIT as int,
        ensures
            r == apply_point_s(self.inverse, *point),
    {
        apply_mat_point(&self.inverse, point)
    }

    /// Applies the stored inverse's 3 by 3 block to a direction.
    pub fn shift_vector(&self, vector: &HVector) -> (r: HVector)
        requires
            self.wf(),
            bounded3(*vector, APPLY_LIMIT as int),
        ensures
            r == apply_vec_s(self.inverse, *vector),
    {
        apply_mat_vec(&self.inverse, vector)
    }

    /// Applies the forward matrix: object space to world space.
    pub fn unshift_point(&self, point: &HVector) -> (r: HVector)
        requires
            self.wf(),
            bounded3(*point, APPLY_LIMIT as int),
            -(APPLY_LIMIT as int) <= point.w@ <= APPLY_LIMIT as int,
        ensures
            r == apply_point_s(self.actual, *point),
    {
        apply_mat_point(&self.actual, point)
    }

    /// Applies the transpose of the stored inverse to a direction: the
    /// correct object-to-world transform for surface normals under
    /// non-uniform scaling.
    pub fn unshift_vector(&self, vector: &HVector) -> (r: HVector)
        requires
            self.wf(),
            bounded3(*vector, APPLY_LIMIT as int),
        ensures
            r == apply_vec_transposed_s(self.inverse, *vector),
    {
        apply_mat_vec_transposed(&self.inverse, vector)
    }

    /// Shifts a ray into object space: the origin through the inverse, the
    /// direction through its 3 by 3 block, re-normalized.
    pub fn shift(&self, ray: &Ray) -> (r: Ray)
        requires
            self.wf(),
            bounded3(ray.from, APPLY_LIMIT as int),
            -(APPLY_LIMIT as int) <= ray.from.w@ <= APPLY_LIMIT as int,
            bounded3(ray.direction, APPLY_LIMIT as int),
            fits_dot(apply_vec_s(self.inverse, ray.direction), apply_vec_s(self.inverse, ray.direction)),
            mag_s(apply_vec_s(self.inverse, ray.direction)) >= 1,
        ensures
            r.from == apply_point_s(self.inverse, ray.from),
            r.direction == normalized_v(apply_vec_s(self.inverse, ray.direction)),
    {
        let direction = self.shift_vector(&ray.direction);
        let n = direction.normalized();
        proof {
            assert(n == normalized_v(apply_vec_s(self.inverse, ray.direction)));
        }
        Ray { from: self.shift_point(&ray.from), direction: n }
    }

    /// Unshifts a ray back to world space: the origin through the forward
    /// matrix, the direction through the inverse-transpose, re-normalized.
    pub fn unshift(&self, ray: &Ray) -> (r: Ray)
        requires
            self.wf(),
            bounded3(ray.from, APPLY_LIMIT as int),
            -(APPLY_LIMIT as int) <= ray.from.w@ <= APPLY_LIMIT as int,
            bounded3(ray.direction, APPLY_LIMIT as int),
            fits_dot(
                apply_vec_transposed_s(self.inverse, ray.direction),
                apply_vec_transposed_s(self.inverse, ray.direction),
            ),
            mag_s(apply_vec_transposed_s(self.inverse, ray.direction)) >= 1,
        ensures
            r.from == apply_point_s(self.actual, ray.from),
            r.direction == normalized_v(apply_vec_transposed_s(self.inverse, ray.direction)),
    {
        let direction = self.unshift_vector(&ray.direction);
        let n = direction.normalized();
        proof {
            assert(n == normalized_v(apply_vec_transposed_s(self.inverse, ray.direction)));
        }
        Ray { from: self.unshift_point(&ray.from), direction: n }
    }
}

fn apply_mat_point(m: &Mat4, p: &HVector) -> (r: HVector)
    requires
        mat_bounded(*m, MAT_LIMIT as int),
        bounded3(*p, APPLY_LIMIT as int),
        -(APPLY_LIMIT as int) <= p.w@ <= APPLY_LIMIT as int,
    ensures
        r == apply_point_s(*m, *p),
{
    proof {
        lemma_apply_prod(m.m00@, p.x@); lemma_apply_prod(m.m01@, p.y@);
        lemma_apply_prod(m.m02@, p.z@); lemma_apply_prod(m.m03@, p.w@);
        lemma_apply_prod(m.m10@, p.x@); lemma_apply_prod(m.m11@, p.y@);
        lemma_apply_prod(m.m12@, p.z@); lemma_apply_prod(m.m13@, p.w@);
        lemma_apply_prod(m.m20@, p.x@); lemma_apply_prod(m.m21@, p.y@);
        lemma_apply_prod(m.m22@, p.z@); lemma_apply_prod(m.m23@, p.w@);
        lemma_apply_prod(m.m30@, p.x@); lemma_apply_prod(m.m31@, p.y@);
        lemma_apply_prod(m.m32@, p.z@); lemma_apply_prod(m.m33@, p.w@);
    }
    let x = sum4_div_scale(
        (m.m00.raw as i128) * (p.x.raw as i128),
        (m.m01.raw as i128) * (p.y.raw as i128),
        (m.m02.raw as i128) * (p.z.raw as i128),
        (m.m03.raw as i128) * (p.w.raw as i128),
    );
    let y = sum4_div_scale(
        (m.m10.raw as i128) * (p.x.raw as i128),
        (m.m11.raw as i128) * (p.y.raw as i128),
        (m.m12.raw as i128) * (p.z.raw as i128),
        (m.m13.raw as i128) * (p.w.raw as i128),
    );
    let z = sum4_div_scale(
        (m.m20.raw as i128) * (p.x.raw as i128),
        (m.m21.raw as i128) * (p.y.raw as i128),
        (m.m22.raw as i128) * (p.z.raw as i128),
        (m.m23.raw as i128) * (p.w.raw as i128),
    );
    let w = sum4_div_scale(
        (m.m30.raw as i128) * (p.x.raw as i128),
        (m.m31.raw as i128) * (p.y.raw as i128),
        (m.m32.raw as i128) * (p.z.raw as i128),
        (m.m33.raw as i128) * (p.w.raw as i128),
    );
    HVector { x: Fx { raw: x }, y: Fx { raw: y }, z: Fx { raw: z }, w: Fx { raw: w } }
}

fn apply_mat_vec_transposed(m: &Mat4, p: &HVector) -> (r: HVector)
    requires
        mat_bounded(*m, MAT_LIMIT as int),
        bounded3(*p, APPLY_LIMIT as int),
    ensures
        r == apply_vec_transposed_s(*m, *p),
{
    proof {
        lemma_apply_prod(m.m00@, p.x@); lemma_apply_prod(m.m10@, p.y@);
        lemma_apply_prod(m.m20@, p.z@);
        lemma_apply_prod(m.m01@, p.x@); lemma_apply_prod(m.m11@, p.y@);
        lemma_apply_prod(m.m21@, p.z@);
        lemma_apply_prod(m.m02@, p.x@); lemma_apply_prod(m.m12@, p.y@);
        lemma_apply_prod(m.m22@, p.z@);
    }
    let x = crate::vector::sum3_div_scale(
        (m.m00.raw as i128) * (p.x.raw as i128),
        (m.m10.raw as i128) * (p.y.raw as i128),
        (m.m20.raw as i128) * (p.z.raw as i128),
    );
    let y = crate::vector::sum3_div_scale(
        (m.m01.raw as i128) * (p.x.raw as i128),
        (m.m11.raw as i128) * (p.y.raw as i128),
        (m.m21.raw as i128) * (p.z.raw as i128),
    );
    let z = crate::vector::sum3_div_scale(
        (m.m02.raw as i128) * (p.x.raw as i128),
        (m.m12.raw as i128) * (p.y.raw as i128),
        (m.m22.raw as i128) * (p.z.raw as i128),
    );
    HVector { x: Fx { raw: x }, y: Fx { raw: y }, z: Fx { raw: z }, w: Fx::one() }
}

fn apply_mat_vec(m: &Mat4, p: &HVector) -> (r: HVector)
    requires
        mat_bounded(*m, MAT_LIMIT as int),
        bounded3(*p, APPLY_LIMIT as int),
    ensures
        r == apply_vec_s(*m, *p),
{
    proof {
        lemma_apply_prod(m.m00@, p.x@); lemma_apply_prod(m.m01@, p.y@);
        lemma_apply_prod(m.m02@, p.z@);
        lemma_apply_prod(m.m10@, p.x@); lemma_apply_prod(m.m11@, p.y@);
        lemma_apply_prod(m.m12@, p.z@);
        lemma_apply_prod(m.m20@, p.x@); lemma_apply_prod(m.m21@, p.y@);
        lemma_apply_prod(m.m22@, p.z@);
    }
    let x = crate::vector::sum3_div_scale(
        (m.m00.raw as i128) * (p.x.raw as i128),
        (m.m01.raw as i128) * (p.y.raw as i128),
        (m.m02.raw as i128) * (p.z.raw as i128),
    );
    let y = crate::vector::sum3_div_scale(
        (m.m10.raw as i128) * (p.x.raw as i128),
        (m.m11.raw as i128) * (p.y.raw as i128),
        (m.m12.raw as i128) * (p.z.raw as i128),
    );
    let z = crate::vector::sum3_div_scale(
        (m.m20.raw as i128) * (p.x.raw as i128),
        (m.m21.raw as i128) * (p.y.raw as i128),
        (m.m22.raw as i128) * (p.z.raw as i128),
    );
    HVector { x: Fx { raw: x }, y: Fx { raw: y }, z: Fx { raw: z }, w: Fx::one() }
}

/// A transform whose rotation is the identity and whose axis scales are
/// exactly one: a pure translation.
pub open spec fn translation_only(t: AffineTransformation) -> bool {
    &&& t.scale[0]@ == SCALE && t.scale[1]@ == SCALE && t.scale[2]@ == SCALE
    &&& t.orientation.0.sin@ == 0 && t.orientation.0.cos@ == SCALE
    &&& t.orientation.1.sin@ == 0 && t.orientation.1.cos@ == SCALE
}

/// Affine round trip: for a translation-only transform, shifting a point
/// into object space and unshifting it back restores it exactly. (With
/// scaling or rotation the round trip is exact only up to fixed-point
/// rounding: with an axis scale of three, a point with a coordinate of
/// one raw unit does not survive the trip.)
pub proof fn lemma_shift_unshift_translation(t: AffineTransformation, p: HVector)
    requires
        wf_transformation(t),
        translation_only(t),
        bounded3(p, 0x100_0000_0000),
        p.w@ == SCALE,
    ensures
        apply_point_s(actual_of(t), apply_point_s(inverse_of(t), p)) == p,
{
    let p0 = t.position[0]@;
    let p1 = t.position[1]@;
    let p2 = t.position[2]@;
    // entries of both matrices evaluate to an identity block plus the
    // translation column
    vstd::arithmetic::div_mod::lemma_div_multiples_vanish(-p0, 65536);
    vstd::arithmetic::div_mod::lemma_div_multiples_vanish(-p1, 65536);
    vstd::arithmetic::div_mod::lemma_div_multiples_vanish(p2, 65536);
    vstd::arithmetic::div_mod::lemma_div_multiples_vanish(-p2, 65536);
    vstd::arithmetic::div_mod::lemma_div_multiples_vanish(p0, 65536);
    vstd::arithmetic::div_mod::lemma_div_multiples_vanish(p1, 65536);
    assert(fmul_s(65536, 65536) == 65536) by {
        vstd::arithmetic::div_mod::lemma_div_multiples_vanish(65536, 65536);
    }
    assert(fmul_s(65536, 0) == 0 && fmul_s(0, 65536) == 0 && fmul_s(0, 0) == 0
        && fmul_s(-0, 65536) == 0) by {
        vstd::arithmetic::div_mod::lemma_div_of0(65536);
    }
    assert(fdiv_s(65536, 65536) == 65536) by {
        vstd::arithmetic::div_mod::lemma_div_multiples_vanish(65536, 65536);
    }
    let cy = t.orientation.0.cos@;
    let sy = t.orientation.0.sin@;
    let cz = t.orientation.1.cos@;
    let sz = t.orientation.1.sin@;
    assert(fmul_s(cy, cz) == 65536 && fmul_s(cy, sz) == 0 && fmul_s(sy, cz) == 0 && fmul_s(
        sy,
        sz,
    ) == 0);
    assert(fdiv_s(65536, t.scale[0]@) == 65536 && fdiv_s(65536, t.scale[1]@) == 65536 && fdiv_s(
        65536,
        t.scale[2]@,
    ) == 65536);
    let c0v = floor_div(
        fmul_s(cy, cz) * -t.position[0]@ + fmul_s(cy, sz) * -t.position[1]@ + (-sy)
            * t.position[2]@,
        SCALE as int,
    );
    let c1v = floor_div(
        (-sz) * -t.position[0]@ + cz * -t.position[1]@ + 0int * t.position[2]@,
        SCALE as int,
    );
    let c2v = floor_div(
        fmul_s(sy, cz) * -t.position[0]@ + fmul_s(sy, sz) * -t.position[1]@ + cy
            * t.position[2]@,
        SCALE as int,
    );
    assert(c0v == -p0 && c1v == -p1 && c2v == p2);
    assert(fmul_s(65536, -p0) == -p0 && fmul_s(65536, -p1) == -p1 && fmul_s(65536, p2) == p2);
    let inv = inverse_of(t);
    let act = actual_of(t);
    assert(inv.m00@ == 65536 && inv.m01@ == 0 && inv.m02@ == 0);
    assert(inv.m10@ == 0 && inv.m11@ == 65536 && inv.m12@ == 0);
    assert(inv.m20@ == 0 && inv.m21@ == 0 && inv.m22@ == 65536);
    assert(inv.m03@ == -p0 && inv.m13@ == -p1 && inv.m23@ == p2);
    assert(act.m00@ == 65536 && act.m01@ == 0 && act.m02@ == 0);
    assert(act.m10@ == 0 && act.m11@ == 65536 && act.m12@ == 0);
    assert(act.m20@ == 0 && act.m21@ == 0 && act.m22@ == 65536);
    assert(act.m03@ == p0 && act.m13@ == p1 && act.m23@ == -p2);
    let sh = apply_point_s(inv, p);
    vstd::arithmetic::div_mod::lemma_div_multiples_vanish(p.x@ - p0, 65536);
    vstd::arithmetic::div_mod::lemma_div_multiples_vanish(p.y@ - p1, 65536);
    vstd::arithmetic::div_mod::lemma_div_multiples_vanish(p.z@ + p2, 65536);
    assert(sh.x@ == p.x@ - p0 && sh.y@ == p.y@ - p1 && sh.z@ == p.z@ + p2 && sh.w@ == SCALE);
    vstd::arithmetic::div_mod::lemma_div_multiples_vanish(p.x@, 65536);
    vstd::arithmetic::div_mod::lemma_div_multiples_vanish(p.y@, 65536);
    vstd::arithmetic::div_mod::lemma_div_multiples_vanish(p.z@, 65536);
    let back = apply_point_s(act, sh);
    assert(back.x@ == p.x@ && back.y@ == p.y@ && back.z@ == p.z@ && back.w@ == SCALE);
    assert(back == p);
}

} // verus!
