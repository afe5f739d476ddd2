//! Closest-hit resolution.
//!
//! The reducer walks any sequence of intersectable entities and keeps the
//! hit whose surface point lies closest to the ray origin by exact squared
//! distance; the first of two equally distant hits wins. The same reducer
//! serves the scene's top-level traversal and composite shapes.

use vstd::prelude::*;
use crate::object::{closer_step, dist_sq_s, hit_in_range, ray_wf, Intersectable};
use crate::ray::{Hit, Ray};

verus! {

/// The closest hit among the first `n` entities, folded in order.
pub open spec fn closest_upto<O: Intersectable>(objects: Seq<O>, ray: Ray, n: int) -> Option<Hit>
    decreases n,
{
    if n <= 0 {
        None
    } else {
        closer_step(closest_upto(objects, ray, n - 1), objects[n - 1].intersect_s(ray), ray.from)
    }
}

/// The reduction result is a hit of one of the entities, and no entity's
/// hit is strictly closer to the ray origin.
pub proof fn lemma_closest_minimal<O: Intersectable>(objects: Seq<O>, ray: Ray, n: int)
    requires
        0 <= n <= objects.len(),
    ensures
        forall|i: int|
            0 <= i < n && #[trigger] objects[i].intersect_s(ray) is Some ==> closest_upto(
                objects,
                ray,
                n,
            ) is Some && dist_sq_s(closest_upto(objects, ray, n)->0, ray.from) <= dist_sq_s(
                objects[i].intersect_s(ray)->0,
                ray.from,
            ),
        closest_upto(objects, ray, n) is Some ==> exists|i: int|
            0 <= i < n && #[trigger] objects[i].intersect_s(ray) is Some && closest_upto(
                objects,
                ray,
                n,
            )->0 == objects[i].intersect_s(ray)->0,
    decreases n,
{
    if n > 0 {
        lemma_closest_minimal(objects, ray, n - 1);
    }
}

/// Iterates all entities and retains the hit closest to the ray origin by
/// squared distance; ties resolve to the first seen. The result is one of
/// the entities' own hits, and no entity hits strictly closer.
pub fn find_closest_intersection<O: Intersectable>(objects: &Vec<O>, ray: &Ray) -> (r: Option<Hit>)
    requires
        forall|i: int| 0 <= i < objects@.len() ==> (#[trigger] objects@[i]).wf(),
        ray_wf(*ray),
    ensures
        r == closest_upto(objects@, *ray, objects@.len() as int),
        r is Some ==> hit_in_range(r->0),
        forall|i: int|
            0 <= i < objects@.len() && #[trigger] objects@[i].intersect_s(*ray) is Some ==> r
                is Some && dist_sq_s(r->0, ray.from) <= dist_sq_s(
                objects@[i].intersect_s(*ray)->0,
                ray.from,
            ),
        r is Some ==> exists|i: int|
            0 <= i < objects@.len() && #[trigger] objects@[i].intersect_s(*ray) is Some && r->0
                == objects@[i].intersect_s(*ray)->0,
{
    let mut best: Option<Hit> = None;
    let mut i: usize = 0;
    while i < objects.len()
        invariant
            forall|j: int| 0 <= j < objects@.len() ==> (#[trigger] objects@[j]).wf(),
            ray_wf(*ray),
            i <= objects@.len(),
            best == closest_upto(objects@, *ray, i as int),
            best is Some ==> hit_in_range(best->0),
        decreases objects@.len() - i,
    {
        let hit = objects[i].intersect(ray);
        best = crate::object::closest_step_exec(best, hit, &ray.from);
        i = i + 1;
    }
    proof {
        lemma_closest_minimal(objects@, *ray, objects@.len() as int);
    }
    best
}

} // verus!
