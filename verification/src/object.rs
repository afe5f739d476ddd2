//! Shapes, objects and ray intersection.
//!
//! Shapes are defined in object-local unit coordinates: the sphere is the
//! unit sphere at the origin, a triangle carries its three vertices, and
//! the composite shapes hold children that share the parent's frame. The
//! object wrappers add the world/object transform and material
//! resolution. Every intersection routine's contract states its result
//! exactly, as a spec-level mirror of the fixed-point computation,
//! including the range guards that keep all arithmetic inside `i64`.

use vstd::prelude::*;
use crate::fx::{
    fdiv_s, floor_div, fmul_s, lemma_div_cmp, lemma_fmul_s_bound, sqrt_floor, Fx, SCALE,
};
use crate::material::Material;
use crate::matrix::{apply_point_s, apply_vec_s, AffineMatrix, AffineTransformation};
use crate::ray::{Hit, Ray};
use crate::vector::{
    add_v, bounded3, cross_v, dot_s, lemma_cross_bound, lemma_dot_bound, lemma_scale_bound,
    mag_s, normalized_v, scale_v, sub_v, HVector,
};

verus! {

/// Hits at a ray parameter at or below this threshold (one raw unit) are
/// rejected as self-intersections or backward hits.
pub const EPSILON: i64 = 1;

/// Ray origins handed to shape intersection stay within this magnitude.
pub const SHAPE_FROM_LIMIT: i64 = 0x10_0000_0000;

/// Ray directions are unit-length up to rounding; this allows slack.
pub const DIR_LIMIT: i64 = 0x20000;

/// Triangle vertices stay within 1024 object-space units.
pub const VERTEX_LIMIT: i64 = 0x400_0000;

/// Triangle hits farther than this along the ray are out of the
/// representable range and count as misses.
pub const DIST_LIMIT: i64 = 0x100_0000_0000;

/// World-space hit points are kept within this magnitude.
pub const HIT_POINT_LIMIT: i64 = 0x20_0000_0000;

/// Every hit record's point and normal stay within this magnitude.
pub const HIT_RANGE: i64 = 0x10_0000_0000_0000;

/// Directions shifted into object space must stay within this magnitude
/// to be normalized.
pub const SHIFT_DIR_LIMIT: i64 = 0x40_0000_0000;

/// A ray fit for tracing: origin within range, with `w` fixed to 1.0, and
/// a direction of at most twice unit length.
pub open spec fn ray_wf(r: Ray) -> bool {
    &&& bounded3(r.from, SHAPE_FROM_LIMIT as int)
    &&& r.from.w@ == SCALE
    &&& bounded3(r.direction, DIR_LIMIT as int)
}

/// All coordinates of a hit record stay in range.
pub open spec fn hit_in_range(h: Hit) -> bool {
    &&& bounded3(h.normal.from, HIT_RANGE as int)
    &&& h.normal.from.w@ == SCALE
    &&& bounded3(h.normal.direction, HIT_RANGE as int)
}

/// The exact squared distance between a hit's point and a ray origin, in
/// raw units squared.
pub open spec fn dist_sq_s(h: Hit, from: HVector) -> int {
    (h.normal.from.x@ - from.x@) * (h.normal.from.x@ - from.x@) + (h.normal.from.y@ - from.y@) * (
    h.normal.from.y@ - from.y@) + (h.normal.from.z@ - from.z@) * (h.normal.from.z@ - from.z@)
}

/// One step of closest-hit reduction: a new hit replaces the best one
/// seen so far only when it is strictly closer, so the first of two
/// equally distant hits wins.
pub open spec fn closer_step(prev: Option<Hit>, cur: Option<Hit>, from: HVector) -> Option<Hit> {
    match cur {
        None => prev,
        Some(h) => match prev {
            None => cur,
            Some(p) => if dist_sq_s(p, from) > dist_sq_s(h, from) {
                cur
            } else {
                prev
            },
        },
    }
}

/// The arctangent of `t / SCALE` in raw radians, by the quadratic
/// approximation `atan(t) = (pi/4) t + 0.273 t (1 - t)` for `t` in
/// `[0, 1]`; its largest deviation from the true arctangent is below
/// 0.004 radians. The raw constants are `pi/4` and `0.273` on the grid.
pub open spec fn atan_approx_s(t: int) -> int {
    fmul_s(t, 51472) + fmul_s(fmul_s(t, 65536 - t), 17891)
}

/// The angle of the point `(x, y)` in raw radians within `(-pi, pi]`,
/// by octant reduction onto `atan_approx_s`; the origin maps to zero.
/// The raw constants are `pi/2` (rounded down, so the arcsine-based
/// texture coordinate stays within its range) and `pi` on the grid.
pub open spec fn atan2_s(y: int, x: int) -> int {
    let ay = if y < 0 { -y } else { y };
    let ax = if x < 0 { -x } else { x };
    let t0 = if ax == 0 && ay == 0 {
        0int
    } else if ax >= ay {
        let base = atan_approx_s(fdiv_s(ay, ax));
        if x >= 0 { base } else { 205887 - base }
    } else {
        let base = atan_approx_s(fdiv_s(ax, ay));
        if x >= 0 { 102943 - base } else { 102943 + base }
    };
    if y >= 0 { t0 } else { -t0 }
}

/// The spherical texture coordinates of a surface point:
/// `u = 0.5 + atan2(x, z) / (2 pi)` and `v = 0.5 + asin(y) / pi`, with
/// the arcsine taken as `atan2(y, sqrt(1 - y^2))` (`y` clamped onto
/// `[-1, 1]`, which a unit-sphere hit only leaves by rounding).
pub open spec fn sphere_u_s(x: int, z: int) -> int {
    32768 + fdiv_s(atan2_s(x, z), 411775)
}

pub open spec fn sphere_v_s(y: int) -> int {
    let yc = if y > 65536 { 65536int } else if y < -65536 { -65536int } else { y };
    32768 + fdiv_s(atan2_s(yc, sqrt_floor(65536 * 65536 - yc * yc)), 205887)
}

fn atan_approx(t: Fx) -> (r: Fx)
    requires
        0 <= t@ <= 65536,
    ensures
        r@ == atan_approx_s(t@),
        0 <= r@ <= 69363,
{
    proof {
        lemma_fmul_s_bound(t@, 51472, 65536, 51472);
        crate::fx::lemma_div_pos_le(t@ * 51472, 65536);
        lemma_fmul_s_bound(t@, 65536 - t@, 65536, 65536);
        crate::fx::lemma_div_pos_le(t@ * (65536 - t@), 65536);
        lemma_fmul_s_bound(fmul_s(t@, 65536 - t@), 17891, 65536, 17891);
        crate::fx::lemma_div_pos_le(fmul_s(t@, 65536 - t@) * 17891, 65536);
        assert(0 <= t@ * 51472 && 0 <= t@ * (65536 - t@)) by (nonlinear_arith)
            requires 0 <= t@ <= 65536,
        ;
        assert(0 <= fmul_s(t@, 65536 - t@) * 17891) by (nonlinear_arith)
            requires 0 <= fmul_s(t@, 65536 - t@),
        ;
    }
    let linear = t.mul(Fx { raw: 51472 });
    let bow = t.mul(Fx { raw: 65536 - t.raw }).mul(Fx { raw: 17891 });
    linear.add(bow)
}

fn atan2_fx(y: i64, x: i64) -> (r: i64)
    requires
        -0x10_0000_0000_0000 <= y <= 0x10_0000_0000_0000,
        -0x10_0000_0000_0000 <= x <= 0x10_0000_0000_0000,
    ensures
        r == atan2_s(y as int, x as int),
        -205887 <= r <= 205887,
        x >= 0 ==> -102943 <= r <= 102943,
{
    let ay: i64 = if y < 0 { -y } else { y };
    let ax: i64 = if x < 0 { -x } else { x };
    let t0: i64 = if ax == 0 && ay == 0 {
        0
    } else if ax >= ay {
        proof {
            crate::fx::lemma_unit_ratio(ay as int, ax as int);
            crate::fx::lemma_div_pos_le(ay as int * 65536, ax as int);
        }
        let base = atan_approx(Fx { raw: ay }.div(Fx { raw: ax }));
        if x >= 0 {
            base.raw
        } else {
            205887 - base.raw
        }
    } else {
        proof {
            crate::fx::lemma_unit_ratio(ax as int, ay as int);
            crate::fx::lemma_div_pos_le(ax as int * 65536, ay as int);
        }
        let base = atan_approx(Fx { raw: ax }.div(Fx { raw: ay }));
        if x >= 0 {
            102943 - base.raw
        } else {
            102943 + base.raw
        }
    };
    if y >= 0 {
        t0
    } else {
        -t0
    }
}

/// The spherical texture coordinates of a hit point; see `sphere_u_s`
/// and `sphere_v_s`.
fn sphere_uv(hp: &HVector) -> (r: (Fx, Fx))
    requires
        bounded3(*hp, HIT_RANGE as int),
    ensures
        r.0@ == sphere_u_s(hp.x@, hp.z@),
        r.1@ == sphere_v_s(hp.y@),
        0 <= r.0@ <= 65536 && 0 <= r.1@ <= 65536,
{
    let theta = atan2_fx(hp.x.raw, hp.z.raw);
    proof {
        assert(theta as int * (SCALE as int) == theta as int * 65536);
        crate::fx::lemma_floor_div_range(theta as int * 65536, 205887int * 65536, 411775);
        assert(-32768 <= fdiv_s(theta as int, 411775) <= 32767);
    }
    let u = Fx { raw: 32768 + Fx { raw: theta }.div(Fx { raw: 411775 }).raw };
    let yc: i64 = if hp.y.raw > 65536 {
        65536
    } else if hp.y.raw < -65536 {
        -65536
    } else {
        hp.y.raw
    };
    proof {
        assert(0 <= yc * yc <= 65536 * 65536) by (nonlinear_arith)
            requires -65536 <= yc <= 65536,
        ;
    }
    let d: i64 = 65536 * 65536 - yc * yc;
    let c: u64 = crate::fx::isqrt_u128(d as u128);
    proof {
        crate::fx::lemma_sqrt_floor_is(d as int, c as int);
        assert(c as int <= 0x10_0000) by (nonlinear_arith)
            requires
                (c as int) * (c as int) <= 0x1_0000_0000int,
                0 <= c as int,
        ;
    }
    let phi = atan2_fx(yc, c as i64);
    proof {
        assert(phi as int * (SCALE as int) == phi as int * 65536);
        crate::fx::lemma_floor_div_range(phi as int * 65536, 102943int * 65536, 205887);
        assert(-32768 <= fdiv_s(phi as int, 205887) <= 32768);
    }
    let v = Fx { raw: 32768 + Fx { raw: phi }.div(Fx { raw: 205887 }).raw };
    (u, v)
}

/// Intersection with the unit sphere at the origin: with `b` the dot of
/// direction and origin and `c` the squared origin distance less one, the
/// ray parameters are the roots `-b ± sqrt(b² - c)`; the smaller root is
/// preferred unless it lies at or below the epsilon threshold.
pub open spec fn sphere_int_s(ray: Ray) -> Option<Hit> {
    let b = dot_s(ray.direction, ray.from);
    let c = dot_s(ray.from, ray.from) - SCALE as int;
    let d = fmul_s(b, b) - c;
    if d < 0 {
        None
    } else {
        let sq = sqrt_floor(d * (SCALE as int));
        let k = if -b - sq <= EPSILON as int {
            -b + sq
        } else {
            -b - sq
        };
        if k <= EPSILON as int {
            None
        } else {
            let hp = add_v(ray.from, scale_v(ray.direction, k));
            Some(
                Hit {
                    normal: Ray { from: hp, direction: hp },
                    texture_coordinates: (
                        Fx { raw: sphere_u_s(hp.x@, hp.z@) as i64 },
                        Fx { raw: sphere_v_s(hp.y@) as i64 },
                    ),
                    material: None,
                },
            )
        }
    }
}

/// Möller–Trumbore intersection with a triangle, double-sided: only a
/// near-zero determinant (parallel ray) rejects, the sign does not.
/// Hits beyond `DIST_LIMIT` are out of representable range and count as
/// misses.
pub open spec fn triangle_int_s(p1: HVector, p2: HVector, p3: HVector, ray: Ray) -> Option<Hit> {
    let side1 = sub_v(p2, p1);
    let side2 = sub_v(p3, p1);
    let pv = cross_v(ray.direction, side2);
    let det = dot_s(side1, pv);
    if -(EPSILON as int) <= det <= EPSILON as int {
        None
    } else {
        let tv = sub_v(ray.from, p1);
        let u = fdiv_s(dot_s(tv, pv), det);
        if u < 0 || u > SCALE as int {
            None
        } else {
            let qv = cross_v(tv, side1);
            let v = fdiv_s(dot_s(ray.direction, qv), det);
            if v < 0 || u + v > SCALE as int {
                None
            } else {
                let dist = fdiv_s(dot_s(side2, qv), det);
                if dist <= EPSILON as int || dist >= DIST_LIMIT as int {
                    None
                } else {
                    let hp = add_v(ray.from, scale_v(ray.direction, dist));
                    Some(
                        Hit {
                            normal: Ray { from: hp, direction: cross_v(side1, side2) },
                            texture_coordinates: (Fx { raw: u as i64 }, Fx { raw: v as i64 }),
                            material: None,
                        },
                    )
                }
            }
        }
    }
}

/// A shape in object-local coordinates; composites hold children that
/// share the parent's frame.
pub enum ObjectShape {
    Sphere,
    Triangle(HVector, HVector, HVector),
    GroupedMesh(Vec<TexturedObject>),
    Mesh(Vec<LeafObject>),
}

pub open spec fn shape_wf(s: ObjectShape) -> bool
    decreases s,
{
    match s {
        ObjectShape::Sphere => true,
        ObjectShape::Triangle(p1, p2, p3) => bounded3(p1, VERTEX_LIMIT as int) && bounded3(
            p2,
            VERTEX_LIMIT as int,
        ) && bounded3(p3, VERTEX_LIMIT as int),
        ObjectShape::GroupedMesh(children) => forall|i: int|
            0 <= i < children@.len() ==> shape_wf(#[trigger] children@[i].shape),
        ObjectShape::Mesh(children) => forall|i: int|
            0 <= i < children@.len() ==> shape_wf(#[trigger] children@[i].shape),
    }
}

/// Attaches a fallback material to a hit that has none.
pub open spec fn with_material(h: Option<Hit>, m: Material) -> Option<Hit> {
    match h {
        None => None,
        Some(hit) => Some(
            Hit {
                normal: hit.normal,
                texture_coordinates: hit.texture_coordinates,
                material: if hit.material is Some {
                    hit.material
                } else {
                    Some(m)
                },
            },
        ),
    }
}

/// The intersection of a shape with a ray, in the shape's own frame.
pub open spec fn shape_int_s(s: ObjectShape, ray: Ray) -> Option<Hit>
    decreases s,
        (match s {
            ObjectShape::GroupedMesh(cs) => cs@.len() + 1,
            ObjectShape::Mesh(ls) => ls@.len() + 1,
            _ => 0,
        }) as int,
{
    match s {
        ObjectShape::Sphere => sphere_int_s(ray),
        ObjectShape::Triangle(p1, p2, p3) => triangle_int_s(p1, p2, p3, ray),
        ObjectShape::GroupedMesh(cs) => best_tex_upto(s, ray, cs@.len() as int),
        ObjectShape::Mesh(ls) => best_leaf_upto(s, ray, ls@.len() as int),
    }
}

/// The closest hit among the first `n` children of a grouped mesh, each
/// child's own material attached where the child's hit carries none.
pub open spec fn best_tex_upto(s: ObjectShape, ray: Ray, n: int) -> Option<Hit>
    recommends
        s is GroupedMesh,
    decreases s, n,
{
    if n <= 0 {
        None
    } else {
        match s {
            ObjectShape::GroupedMesh(cs) => if n > cs@.len() {
                None
            } else {
                closer_step(
                    best_tex_upto(s, ray, n - 1),
                    with_material(shape_int_s(cs@[n - 1].shape, ray), cs@[n - 1].material),
                    ray.from,
                )
            },
            _ => None,
        }
    }
}

/// The closest hit among the first `n` children of a mesh.
pub open spec fn best_leaf_upto(s: ObjectShape, ray: Ray, n: int) -> Option<Hit>
    recommends
        s is Mesh,
    decreases s, n,
{
    if n <= 0 {
        None
    } else {
        match s {
            ObjectShape::Mesh(ls) => if n > ls@.len() {
                None
            } else {
                closer_step(
                    best_leaf_upto(s, ray, n - 1),
                    shape_int_s(ls@[n - 1].shape, ray),
                    ray.from,
                )
            },
            _ => None,
        }
    }
}

/// The exact squared distance, computed at full width.
fn dist_sq_i128(h: &Hit, from: &HVector) -> (r: i128)
    requires
        hit_in_range(*h),
        bounded3(*from, HIT_RANGE as int),
    ensures
        r == dist_sq_s(*h, *from),
{
    let dx: i128 = h.normal.from.x.raw as i128 - from.x.raw as i128;
    let dy: i128 = h.normal.from.y.raw as i128 - from.y.raw as i128;
    let dz: i128 = h.normal.from.z.raw as i128 - from.z.raw as i128;
    proof {
        assert(dx * dx + dy * dy + dz * dz <= 3 * (0x20_0000_0000_0000int * 0x20_0000_0000_0000)
            && 0 <= dx * dx && 0 <= dy * dy && 0 <= dz * dz) by (nonlinear_arith)
            requires
                -0x20_0000_0000_0000 <= dx <= 0x20_0000_0000_0000,
                -0x20_0000_0000_0000 <= dy <= 0x20_0000_0000_0000,
                -0x20_0000_0000_0000 <= dz <= 0x20_0000_0000_0000,
        ;
    }
    dx * dx + dy * dy + dz * dz
}

/// One executable step of closest-hit reduction.
pub(crate) fn closest_step_exec(prev: Option<Hit>, cur: Option<Hit>, from: &HVector) -> (r: Option<Hit>)
    requires
        prev is Some ==> hit_in_range(prev->0),
        cur is Some ==> hit_in_range(cur->0),
        bounded3(*from, HIT_RANGE as int),
    ensures
        r == closer_step(prev, cur, *from),
        r is Some ==> hit_in_range(r->0),
{
    match cur {
        None => prev,
        Some(h) => match prev {
            None => cur,
            Some(p) => {
                if dist_sq_i128(&p, from) > dist_sq_i128(&h, from) {
                    cur
                } else {
                    prev
                }
            },
        },
    }
}

/// Floor division of non-negative fixed-point raw values.
fn fdiv_floor_nonneg(un: i64, dn: i64) -> (q: i64)
    requires
        0 <= un,
        1 <= dn,
        (un as int) * 65536 / (dn as int) <= i64::MAX,
    ensures
        q == (un as int) * 65536 / (dn as int),
        q >= 0,
{
    let q: u128 = ((un as u128) * 65536) / (dn as u128);
    proof {
        crate::fx::lemma_div_pos_le((un as int) * 65536, dn as int);
    }
    q as i64
}

fn sphere_intersection(ray: &Ray) -> (r: Option<Hit>)
    requires
        ray_wf(*ray),
    ensures
        r == sphere_int_s(*ray),
        r is Some ==> hit_in_range(r->0),
{
    proof {
        lemma_dot_bound(ray.direction, ray.from, DIR_LIMIT as int, SHAPE_FROM_LIMIT as int);
        lemma_dot_bound(ray.from, ray.from, SHAPE_FROM_LIMIT as int, SHAPE_FROM_LIMIT as int);
    }
    let b = ray.direction.dot(&ray.from);
    let c = ray.from.dot(&ray.from).sub(Fx::one());
    proof {
        assert(-0x80_0000_0000 <= b@ <= 0x80_0000_0000);
        assert(-0x800_0000_0000_0000 <= c@ <= 0x800_0000_0000_0000);
        lemma_fmul_s_bound(b@, b@, 0x80_0000_0000, 0x80_0000_0000);
    }
    let bb = b.mul(b);
    let d = bb.sub(c);
    if d.raw < 0 {
        return None;
    }
    let sq = d.sqrt();
    proof {
        assert(sq@ <= 0x100_0000_0000) by (nonlinear_arith)
            requires
                sq@ * sq@ <= 0x7fff_ffff_ffff_ffffint * 65536,
                0 <= sq@,
        ;
    }
    let k1 = b.neg().add(sq);
    let k2 = b.neg().sub(sq);
    let k = if k2.raw <= EPSILON {
        k1
    } else {
        k2
    };
    if k.raw <= EPSILON {
        return None;
    }
    proof {
        lemma_scale_bound(ray.direction, k@, DIR_LIMIT as int, 0x200_0000_0000);
    }
    let hit_point = ray.from.add(ray.direction.scale(k));
    let normal = Ray { from: hit_point, direction: hit_point };
    let texture_coordinates = sphere_uv(&hit_point);
    Some(Hit { normal, texture_coordinates, material: None })
}

fn triangle_intersection(p1: &HVector, p2: &HVector, p3: &HVector, ray: &Ray) -> (r: Option<Hit>)
    requires
        ray_wf(*ray),
        bounded3(*p1, VERTEX_LIMIT as int),
        bounded3(*p2, VERTEX_LIMIT as int),
        bounded3(*p3, VERTEX_LIMIT as int),
    ensures
        r == triangle_int_s(*p1, *p2, *p3, *ray),
        r is Some ==> hit_in_range(r->0),
{
    let side1 = (*p2).sub(*p1);
    let side2 = (*p3).sub(*p1);
    proof {
        lemma_cross_bound(ray.direction, side2, DIR_LIMIT as int, 0x800_0000);
    }
    let p_vector = ray.direction.cross(&side2);
    proof {
        assert(bounded3(p_vector, 0x4000_0000));
        lemma_dot_bound(side1, p_vector, 0x800_0000, 0x4000_0000);
    }
    let determinant = side1.dot(&p_vector);
    proof {
        assert(-0x800_0000_0000 <= determinant@ <= 0x800_0000_0000);
    }
    if -EPSILON <= determinant.raw && determinant.raw <= EPSILON {
        return None;
    }
    let t_vector = ray.from.sub(*p1);
    proof {
        assert(bounded3(t_vector, 0x20_0000_0000));
        lemma_dot_bound(t_vector, p_vector, 0x20_0000_0000, 0x4000_0000);
    }
    let u_num = t_vector.dot(&p_vector);
    proof {
        assert(-0x40_0000_0000_0000 <= u_num@ <= 0x40_0000_0000_0000);
    }
    let ghost deti = determinant@;
    let (un, dn) = if determinant.raw > 0 {
        (u_num.raw, determinant.raw)
    } else {
        (-u_num.raw, -determinant.raw)
    };
    proof {
        assert(fdiv_s(u_num@, deti) == (un as int) * 65536 / (dn as int));
        lemma_div_cmp((un as int) * 65536, dn as int, 0);
        lemma_div_cmp((un as int) * 65536, dn as int, 65537);
    }
    if un < 0 {
        return None;
    }
    if (un as i128) * 65536 >= (dn as i128) * 65537 {
        return None;
    }
    let u = fdiv_floor_nonneg(un, dn);
    proof {
        lemma_cross_bound(t_vector, side1, 0x20_0000_0000, 0x800_0000);
    }
    let q_vector = t_vector.cross(&side1);
    proof {
        assert(bounded3(q_vector, 0x2_0000_0000_0000));
        lemma_dot_bound(ray.direction, q_vector, DIR_LIMIT as int, 0x2_0000_0000_0000);
    }
    let v_num = ray.direction.dot(&q_vector);
    proof {
        assert(-0x20_0000_0000_0000 <= v_num@ <= 0x20_0000_0000_0000);
    }
    let vn = if determinant.raw > 0 {
        v_num.raw
    } else {
        -v_num.raw
    };
    proof {
        assert(fdiv_s(v_num@, deti) == (vn as int) * 65536 / (dn as int));
        lemma_div_cmp((vn as int) * 65536, dn as int, 0);
        lemma_div_cmp((vn as int) * 65536, dn as int, 65537);
    }
    if vn < 0 {
        return None;
    }
    if (vn as i128) * 65536 >= (dn as i128) * 65537 {
        return None;
    }
    let v = fdiv_floor_nonneg(vn, dn);
    if u + v > 65536 {
        return None;
    }
    proof {
        lemma_dot_bound(side2, q_vector, 0x800_0000, 0x2_0000_0000_0000);
    }
    let w_num = side2.dot(&q_vector);
    proof {
        assert(-0x4000_0000_0000_0000 <= w_num@ <= 0x4000_0000_0000_0000);
    }
    let wn = if determinant.raw > 0 {
        w_num.raw
    } else {
        -w_num.raw
    };
    proof {
        assert(fdiv_s(w_num@, deti) == (wn as int) * 65536 / (dn as int));
        lemma_div_cmp((wn as int) * 65536, dn as int, 2);
        lemma_div_cmp((wn as int) * 65536, dn as int, 0x100_0000_0000);
    }
    if (wn as i128) * 65536 < (dn as i128) * 2 {
        return None;
    }
    if (wn as i128) * 65536 >= (dn as i128) * 0x100_0000_0000 {
        return None;
    }
    let distance = fdiv_floor_nonneg(wn, dn);
    proof {
        lemma_cross_bound(side1, side2, 0x800_0000, 0x800_0000);
        lemma_scale_bound(ray.direction, distance as int, DIR_LIMIT as int, DIST_LIMIT as int);
    }
    let plane_normal = side1.cross(&side2);
    let hit_point = ray.from.add(ray.direction.scale(Fx { raw: distance }));
    Some(
        Hit {
            normal: Ray { from: hit_point, direction: plane_normal },
            texture_coordinates: (Fx { raw: u }, Fx { raw: v }),
            material: None,
        },
    )
}

impl ObjectShape {
    /// The intersection of this shape with a ray in the shape's own
    /// frame; composite shapes resolve the closest hit among their
    /// children, first-seen winning ties.
    pub fn intersection(&self, ray: &Ray) -> (r: Option<Hit>)
        requires
            shape_wf(*self),
            ray_wf(*ray),
        ensures
            r == shape_int_s(*self, *ray),
            r is Some ==> hit_in_range(r->0),
        decreases *self,
    {
        match self {
            ObjectShape::Sphere => sphere_intersection(ray),
            ObjectShape::Triangle(p1, p2, p3) => triangle_intersection(p1, p2, p3, ray),
            ObjectShape::GroupedMesh(children) => {
                let mut best: Option<Hit> = None;
                let mut i: usize = 0;
                while i < children.len()
                    invariant
                        shape_wf(*self),
                        ray_wf(*ray),
                        *self is GroupedMesh,
                        children == self->GroupedMesh_0,
                        i <= children@.len(),
                        best == best_tex_upto(*self, *ray, i as int),
                        best is Some ==> hit_in_range(best->0),
                    decreases children@.len() - i,
                {
                    let child = &children[i];
                    let hit = child.shape.intersection(ray);
                    let attached: Option<Hit> = match hit {
                        None => None,
                        Some(h) => Some(
                            Hit {
                                normal: h.normal,
                                texture_coordinates: h.texture_coordinates,
                                material: match h.material {
                                    Some(m) => Some(m),
                                    None => Some(child.material),
                                },
                            },
                        ),
                    };
                    proof {
                        assert(attached == with_material(
                            shape_int_s(children@[i as int].shape, *ray),
                            children@[i as int].material,
                        ));
                    }
                    best = closest_step_exec(best, attached, &ray.from);
                    i = i + 1;
                }
                best
            },
            ObjectShape::Mesh(children) => {
                let mut best: Option<Hit> = None;
                let mut i: usize = 0;
                while i < children.len()
                    invariant
                        shape_wf(*self),
                        ray_wf(*ray),
                        *self is Mesh,
                        children == self->Mesh_0,
                        i <= children@.len(),
                        best == best_leaf_upto(*self, *ray, i as int),
                        best is Some ==> hit_in_range(best->0),
                    decreases children@.len() - i,
                {
                    let child = &children[i];
                    let hit = child.shape.intersection(ray);
                    best = closest_step_exec(best, hit, &ray.from);
                    i = i + 1;
                }
                best
            },
        }
    }
}

/// A textured child of a grouped mesh: its own material, no transform.
pub struct TexturedObject {
    pub shape: ObjectShape,
    pub material: Material,
}

/// A bare child of a mesh: no material, no transform.
pub struct LeafObject {
    pub shape: ObjectShape,
}

/// The capability set shared by everything the closest-hit reducer can
/// traverse: an intersection and an optional material of its own.
pub trait Intersectable: Sized {
    spec fn wf(&self) -> bool;

    spec fn intersect_s(&self, ray: Ray) -> Option<Hit>;

    spec fn material_s(&self) -> Option<Material>;

    fn intersect(&self, ray: &Ray) -> (r: Option<Hit>)
        requires
            self.wf(),
            ray_wf(*ray),
        ensures
            r == self.intersect_s(*ray),
            r is Some ==> hit_in_range(r->0),
    ;

    fn get_material(&self) -> (r: Option<&Material>)
        ensures
            match r {
                Some(m) => self.material_s() == Some(*m),
                None => self.material_s() is None,
            },
    ;
}

/// A transformed object's intersection: the ray is shifted into object
/// space (with its direction re-normalized), the shape is intersected
/// there, and the hit's normal ray is shifted back to world space. A ray
/// or hit that leaves the representable coordinate range on the way
/// counts as a miss.
pub open spec fn transformed_int_s(
    matrix: AffineMatrix,
    shape: ObjectShape,
    own: Option<Material>,
    ray: Ray,
) -> Option<Hit> {
    let sfrom = apply_point_s(matrix.inverse, ray.from);
    let sdir0 = apply_vec_s(matrix.inverse, ray.direction);
    if !bounded3(sfrom, SHAPE_FROM_LIMIT as int) {
        None
    } else if !bounded3(sdir0, SHIFT_DIR_LIMIT as int) {
        None
    } else if mag_s(sdir0) < 1 {
        None
    } else {
        let sray = Ray { from: sfrom, direction: normalized_v(sdir0) };
        match shape_int_s(shape, sray) {
            None => None,
            Some(hit) => {
                let wfrom = apply_point_s(matrix.actual, hit.normal.from);
                let wdir0 = crate::matrix::apply_vec_transposed_s(matrix.inverse, hit.normal.direction);
                if !bounded3(hit.normal.from, crate::matrix::APPLY_LIMIT as int) {
                    None
                } else if !bounded3(hit.normal.direction, crate::matrix::APPLY_LIMIT as int) {
                    None
                } else if !bounded3(wdir0, SHIFT_DIR_LIMIT as int) {
                    None
                } else if mag_s(wdir0) < 1 {
                    None
                } else if !bounded3(wfrom, HIT_POINT_LIMIT as int) {
                    None
                } else {
                    Some(
                        Hit {
                            normal: Ray { from: wfrom, direction: normalized_v(wdir0) },
                            texture_coordinates: hit.texture_coordinates,
                            material: match hit.material {
                                Some(m) => Some(m),
                                None => own,
                            },
                        },
                    )
                }
            },
        }
    }
}

/// All three coordinates within `limit`.
fn in_bounds3(v: &HVector, limit: i64) -> (b: bool)
    requires
        limit >= 0,
    ensures
        b == bounded3(*v, limit as int),
{
    -limit <= v.x.raw && v.x.raw <= limit && -limit <= v.y.raw && v.y.raw <= limit && -limit
        <= v.z.raw && v.z.raw <= limit
}

/// The shared implementation behind the transformed object wrappers.
fn transformed_intersect(
    matrix: &AffineMatrix,
    shape: &ObjectShape,
    own: Option<Material>,
    ray: &Ray,
) -> (r: Option<Hit>)
    requires
        matrix.wf(),
        shape_wf(*shape),
        ray_wf(*ray),
    ensures
        r == transformed_int_s(*matrix, *shape, own, *ray),
        r is Some ==> hit_in_range(r->0),
{
    let sfrom = matrix.shift_point(&ray.from);
    if !in_bounds3(&sfrom, SHAPE_FROM_LIMIT) {
        return None;
    }
    let sdir0 = matrix.shift_vector(&ray.direction);
    if !in_bounds3(&sdir0, SHIFT_DIR_LIMIT) {
        return None;
    }
    proof {
        lemma_dot_bound(sdir0, sdir0, SHIFT_DIR_LIMIT as int, SHIFT_DIR_LIMIT as int);
    }
    let m = sdir0.magnitude();
    if m.raw < 1 {
        return None;
    }
    let sray = Ray { from: sfrom, direction: sdir0.normalized() };
    proof {
        assert(sray.from.w@ == SCALE);
        assert(ray_wf(sray));
    }
    match shape.intersection(&sray) {
        None => None,
        Some(hit) => {
            if !in_bounds3(&hit.normal.from, crate::matrix::APPLY_LIMIT) {
                return None;
            }
            if !in_bounds3(&hit.normal.direction, crate::matrix::APPLY_LIMIT) {
                return None;
            }
            let wfrom = matrix.unshift_point(&hit.normal.from);
            let wdir0 = matrix.unshift_vector(&hit.normal.direction);
            if !in_bounds3(&wdir0, SHIFT_DIR_LIMIT) {
                return None;
            }
            proof {
                lemma_dot_bound(wdir0, wdir0, SHIFT_DIR_LIMIT as int, SHIFT_DIR_LIMIT as int);
            }
            let wm = wdir0.magnitude();
            if wm.raw < 1 {
                return None;
            }
            if !in_bounds3(&wfrom, HIT_POINT_LIMIT) {
                return None;
            }
            let wdir = wdir0.normalized();
            proof {
                assert(wfrom.w@ == SCALE);
            }
            Some(
                Hit {
                    normal: Ray { from: wfrom, direction: wdir },
                    texture_coordinates: hit.texture_coordinates,
                    material: match hit.material {
                        Some(m2) => Some(m2),
                        None => own,
                    },
                },
            )
        },
    }
}

/// A root object: a shape with a transform and a material of its own.
pub struct Object {
    pub material: Material,
    pub matrix: AffineMatrix,
    pub shape: ObjectShape,
}

impl Object {
    /// Builds an object from a shape, an optional transform (the default
    /// places the shape five units down the depth axis) and an optional
    /// material (the default splits its reflectances evenly).
    pub fn new(
        shape: ObjectShape,
        transformation: Option<AffineTransformation>,
        material: Option<Material>,
    ) -> (r: Object)
        requires
            shape_wf(shape),
            transformation is Some ==> crate::matrix::wf_transformation(transformation->0),
        ensures
            r.shape == shape,
            r.material == (if material is Some {
                material->0
            } else {
                crate::material::default_material_s()
            }),
            ({
                let t = if transformation is Some {
                    transformation->0
                } else {
                    crate::matrix::default_transformation_s()
                };
                r.matrix.actual == crate::matrix::actual_of(t) && r.matrix.inverse
                    == crate::matrix::inverse_of(t)
            }),
            r.matrix.wf(),
            shape_wf(r.shape),
    {
        let t = match transformation {
            Some(t) => t,
            None => AffineTransformation::default(),
        };
        let material: Material = match material {
            Some(m) => m,
            None => Material::default(),
        };
        Object { shape, matrix: AffineMatrix::new(t), material }
    }
}

impl Intersectable for Object {
    open spec fn wf(&self) -> bool {
        self.matrix.wf() && shape_wf(self.shape)
    }

    open spec fn intersect_s(&self, ray: Ray) -> Option<Hit> {
        transformed_int_s(self.matrix, self.shape, Some(self.material), ray)
    }

    open spec fn material_s(&self) -> Option<Material> {
        Some(self.material)
    }

    fn intersect(&self, ray: &Ray) -> (r: Option<Hit>) {
        transformed_intersect(&self.matrix, &self.shape, Some(self.material), ray)
    }

    fn get_material(&self) -> (r: Option<&Material>) {
        Some(&self.material)
    }
}

/// A transformed child without a material of its own; it relies on
/// inheritance from an enclosing group.
pub struct ChildObject {
    pub matrix: AffineMatrix,
    pub shape: ObjectShape,
}

impl ChildObject {
    pub fn new(shape: ObjectShape, transformation: Option<AffineTransformation>) -> (r:
        ChildObject)
        requires
            shape_wf(shape),
            transformation is Some ==> crate::matrix::wf_transformation(transformation->0),
        ensures
            r.shape == shape,
            ({
                let t = if transformation is Some {
                    transformation->0
                } else {
                    crate::matrix::default_transformation_s()
                };
                r.matrix.actual == crate::matrix::actual_of(t) && r.matrix.inverse
                    == crate::matrix::inverse_of(t)
            }),
            r.matrix.wf(),
            shape_wf(r.shape),
    {
        let t = match transformation {
            Some(t) => t,
            None => AffineTransformation::default(),
        };
        ChildObject { shape, matrix: AffineMatrix::new(t) }
    }
}

impl Intersectable for ChildObject {
    open spec fn wf(&self) -> bool {
        self.matrix.wf() && shape_wf(self.shape)
    }

    open spec fn intersect_s(&self, ray: Ray) -> Option<Hit> {
        transformed_int_s(self.matrix, self.shape, None, ray)
    }

    open spec fn material_s(&self) -> Option<Material> {
        None
    }

    fn intersect(&self, ray: &Ray) -> (r: Option<Hit>) {
        transformed_intersect(&self.matrix, &self.shape, None, ray)
    }

    fn get_material(&self) -> (r: Option<&Material>) {
        None
    }
}

impl LeafObject {
    pub fn new(shape: ObjectShape) -> (r: LeafObject)
        ensures
            r.shape == shape,
    {
        LeafObject { shape }
    }
}

impl Intersectable for LeafObject {
    open spec fn wf(&self) -> bool {
        shape_wf(self.shape)
    }

    open spec fn intersect_s(&self, ray: Ray) -> Option<Hit> {
        shape_int_s(self.shape, ray)
    }

    open spec fn material_s(&self) -> Option<Material> {
        None
    }

    fn intersect(&self, ray: &Ray) -> (r: Option<Hit>) {
        self.shape.intersection(ray)
    }

    fn get_material(&self) -> (r: Option<&Material>) {
        None
    }
}

impl TexturedObject {
    pub fn new(shape: ObjectShape, material: Option<Material>) -> (r: TexturedObject)
        ensures
            r.shape == shape,
            r.material == (if material is Some {
                material->0
            } else {
                crate::material::default_material_s()
            }),
    {
        let material: Material = match material {
            Some(m) => m,
            None => Material::default(),
        };
        TexturedObject { shape, material }
    }
}

impl Intersectable for TexturedObject {
    open spec fn wf(&self) -> bool {
        shape_wf(self.shape)
    }

    open spec fn intersect_s(&self, ray: Ray) -> Option<Hit> {
        with_material(shape_int_s(self.shape, ray), self.material)
    }

    open spec fn material_s(&self) -> Option<Material> {
        Some(self.material)
    }

    fn intersect(&self, ray: &Ray) -> (r: Option<Hit>) {
        match self.shape.intersection(ray) {
            None => None,
            Some(h) => Some(
                Hit {
                    normal: h.normal,
                    texture_coordinates: h.texture_coordinates,
                    material: match h.material {
                        Some(m) => Some(m),
                        None => Some(self.material),
                    },
                },
            ),
        }
    }

    fn get_material(&self) -> (r: Option<&Material>) {
        Some(&self.material)
    }
}

} // verus!
