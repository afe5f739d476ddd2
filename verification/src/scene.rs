//! The scene and its local-illumination shading.
//!
//! A scene owns its objects and lights, both read-only once tracing
//! begins. Tracing a ray resolves the closest hit across all objects and
//! shades it with a Phong-style model: an ambient term from the material,
//! and diffuse and specular terms summed over the lights and divided by
//! the light count. A light that sits on the hit point itself, or a scene
//! with no lights, contributes nothing beyond the ambient term. The
//! recursion-depth budget is threaded through for future recursive light
//! transport; local illumination does not consume it.

use vstd::prelude::*;
use crate::fx::Fx;
use crate::image::{black_s, colour_add_s, colour_scale_s, sat_fmul_s, Colour};
use crate::intersection::{closest_upto, find_closest_intersection};
use crate::light::Light;
use crate::material::Material;
use crate::object::{ray_wf, Intersectable, Object, DIR_LIMIT, HIT_POINT_LIMIT};
use crate::ray::{Hit, Ray};
use crate::vector::{
    bounded3, dot_s, lemma_dot_bound, lemma_normalized_bounded, lemma_reflect_fits, mag_s, neg_v,
    normalized_v, reflect_v, sub_v, HVector,
};

verus! {

/// Light locations stay within this magnitude.
pub const LIGHT_LIMIT: i64 = 0x20_0000_0000;

/// A hit record fit for shading: the point and (unit) normal in range,
/// and a resolved material present.
pub open spec fn shading_hit_wf(h: Hit) -> bool {
    &&& bounded3(h.normal.from, HIT_POINT_LIMIT as int)
    &&& bounded3(h.normal.direction, DIR_LIMIT as int)
    &&& h.material is Some
}

/// The diffuse and specular contribution of one light, guarded
/// independently: a negative diffuse factor (the surface faces away)
/// cancels only the diffuse term, and the specular term is still added
/// whenever its own factor is non-negative. A light sitting on the hit
/// point itself has no direction and contributes nothing.
pub open spec fn light_term_s(light: Light, direction: HVector, hit: Hit, material: Material) -> Colour {
    let diff = sub_v(light.location, hit.normal.from);
    if mag_s(diff) < 1 {
        black_s()
    } else {
        let ld = normalized_v(diff);
        let df = dot_s(ld, hit.normal.direction);
        let dcol = if df < 0 {
            black_s()
        } else {
            colour_scale_s(material.colour, sat_fmul_s(material.diffuse@, df))
        };
        let refl = reflect_v(ld, hit.normal.direction);
        let sf = dot_s(neg_v(direction), refl);
        if sf < 0 {
            dcol
        } else {
            colour_add_s(dcol, colour_scale_s(light.colour, sat_fmul_s(material.specular@, sf)))
        }
    }
}

/// The summed contribution of the first `n` lights.
pub open spec fn light_sum_upto(
    lights: Seq<Light>,
    direction: HVector,
    hit: Hit,
    material: Material,
    n: int,
) -> Colour
    decreases n,
{
    if n <= 0 {
        black_s()
    } else {
        colour_add_s(
            light_sum_upto(lights, direction, hit, material, n - 1),
            light_term_s(lights[n - 1], direction, hit, material),
        )
    }
}

/// The shaded colour of a hit: the ambient term plus the per-light sum
/// averaged over the light count; with no lights, the ambient term alone.
pub open spec fn get_colour_s(scene: Scene, direction: HVector, hit: Hit) -> Colour {
    let material = hit.material->0;
    let ambient = colour_scale_s(material.colour, material.ambient@);
    if scene.lights@.len() == 0 {
        ambient
    } else {
        colour_add_s(
            ambient,
            colour_scale_s(
                light_sum_upto(
                    scene.lights@,
                    direction,
                    hit,
                    material,
                    scene.lights@.len() as int,
                ),
                65536int / scene.lights@.len() as int,
            ),
        )
    }
}

/// The colour a ray resolves to: the shaded closest hit, or black where
/// the ray misses every object.
pub open spec fn trace_s(scene: Scene, ray: Ray) -> Colour {
    match closest_upto(scene.objects@, ray, scene.objects@.len() as int) {
        Some(hit) => get_colour_s(scene, ray.direction, hit),
        None => black_s(),
    }
}

/// A scene: objects and lights, append-only during construction and
/// read-only while tracing.
pub struct Scene {
    pub objects: Vec<Object>,
    pub lights: Vec<Light>,
}

impl Scene {
    pub open spec fn wf(&self) -> bool {
        &&& forall|i: int| 0 <= i < self.objects@.len() ==> (#[trigger] self.objects@[i]).wf()
        &&& forall|i: int|
            0 <= i < self.lights@.len() ==> bounded3(
                (#[trigger] self.lights@[i]).location,
                LIGHT_LIMIT as int,
            )
    }

    pub fn new(objects: Vec<Object>, lights: Vec<Light>) -> (r: Scene)
        requires
            forall|i: int| 0 <= i < objects@.len() ==> (#[trigger] objects@[i]).wf(),
            forall|i: int|
                0 <= i < lights@.len() ==> bounded3(
                    (#[trigger] lights@[i]).location,
                    LIGHT_LIMIT as int,
                ),
        ensures
            r.objects == objects,
            r.lights == lights,
            r.wf(),
    {
        Scene { objects, lights }
    }

    /// Casts a ray into the scene.
    pub fn trace(&self, ray: &Ray, depth: u8) -> (r: Colour)
        requires
            self.wf(),
            ray_wf(*ray),
        ensures
            r == trace_s(*self, *ray),
    {
        let result = find_closest_intersection(&self.objects, ray);
        match result {
            Some(hit) => {
                proof {
                    let objs = self.objects@;
                    let n = objs.len() as int;
                    let i = choose|i: int|
                        0 <= i < n && #[trigger] objs[i].intersect_s(*ray) is Some && result->0
                            == objs[i].intersect_s(*ray)->0;
                    let oi = objs[i];
                    let sdir0 = crate::matrix::apply_vec_s(oi.matrix.inverse, ray.direction);
                    let sray = Ray {
                        from: crate::matrix::apply_point_s(oi.matrix.inverse, ray.from),
                        direction: normalized_v(sdir0),
                    };
                    let inner = crate::object::shape_int_s(oi.shape, sray);
                    assert(inner is Some);
                    let wdir0 = crate::matrix::apply_vec_transposed_s(
                        oi.matrix.inverse,
                        inner->0.normal.direction,
                    );
                    assert(mag_s(wdir0) >= 1);
                    lemma_normalized_bounded(wdir0);
                    assert(shading_hit_wf(hit));
                }
                self.get_colour(&ray.direction, &hit, depth)
            },
            None => Colour::black(),
        }
    }

    /// Shades a resolved hit under this scene's lights. The depth budget
    /// is reserved for recursive light transport and is not consumed by
    /// local illumination.
    pub fn get_colour(&self, direction: &HVector, hit: &Hit, depth: u8) -> (r: Colour)
        requires
            self.wf(),
            shading_hit_wf(*hit),
            bounded3(*direction, DIR_LIMIT as int),
        ensures
            r == get_colour_s(*self, *direction, *hit),
    {
        let _ = depth;
        let material = hit.material.unwrap();
        let ambient_light = material.colour.scale(material.ambient);
        let mut light_contributions = Colour::black();
        let mut i: usize = 0;
        while i < self.lights.len()
            invariant
                self.wf(),
                shading_hit_wf(*hit),
                bounded3(*direction, DIR_LIMIT as int),
                i <= self.lights@.len(),
                material == hit.material->0,
                light_contributions == light_sum_upto(
                    self.lights@,
                    *direction,
                    *hit,
                    material,
                    i as int,
                ),
            decreases self.lights@.len() - i,
        {
            let term = light_term(&self.lights[i], direction, hit, &material);
            light_contributions = light_contributions.add(term);
            proof {
                assert(light_contributions == light_sum_upto(
                    self.lights@,
                    *direction,
                    *hit,
                    material,
                    i as int + 1,
                ));
            }
            i = i + 1;
        }
        if self.lights.len() == 0 {
            return ambient_light;
        }
        let inv = Fx { raw: (65536usize / self.lights.len()) as i64 };
        ambient_light.add(light_contributions.scale(inv))
    }
}

/// One light's shading contribution; see `light_term_s`.
fn light_term(light: &Light, direction: &HVector, hit: &Hit, material: &Material) -> (c: Colour)
    requires
        bounded3(light.location, LIGHT_LIMIT as int),
        bounded3(hit.normal.from, HIT_POINT_LIMIT as int),
        bounded3(hit.normal.direction, DIR_LIMIT as int),
        bounded3(*direction, DIR_LIMIT as int),
    ensures
        c == light_term_s(*light, *direction, *hit, *material),
{
    let diff = light.location.sub(hit.normal.from);
    proof {
        assert(diff == sub_v(light.location, hit.normal.from));
        lemma_dot_bound(diff, diff, 0x40_0000_0000, 0x40_0000_0000);
    }
    let m = diff.magnitude();
    if m.raw < 1 {
        return Colour::black();
    }
    let light_direction = diff.normalized();
    proof {
        assert(light_direction == normalized_v(sub_v(light.location, hit.normal.from)));
        lemma_dot_bound(light_direction, hit.normal.direction, 0x10000, DIR_LIMIT as int);
    }
    let diffuse_factor = light_direction.dot(&hit.normal.direction);
    let dcol = if diffuse_factor.raw < 0 {
        Colour::black()
    } else {
        material.colour.scale(crate::image::sat_mul(material.diffuse, diffuse_factor))
    };
    proof {
        lemma_reflect_fits(light_direction, hit.normal.direction);
    }
    let reflected = light_direction.reflect(&hit.normal.direction);
    let incident_reversed = direction.reverse();
    proof {
        assert(reflected == reflect_v(light_direction, hit.normal.direction));
        assert(incident_reversed == neg_v(*direction));
        lemma_dot_bound(incident_reversed, reflected, DIR_LIMIT as int, 0x80_0000);
    }
    let specular_factor = incident_reversed.dot(&reflected);
    if specular_factor.raw < 0 {
        return dcol;
    }
    dcol.add(light.colour.scale(crate::image::sat_mul(material.specular, specular_factor)))
}

} // verus!
