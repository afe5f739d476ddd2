//! Rays and hit records.

use vstd::prelude::*;
use crate::fx::{Fx, SCALE};
use crate::material::Material;
use crate::vector::{HVector, Vector3};

verus! {

/// A half-line: an origin and a direction. Hits reuse the same shape as a
/// "normal ray": origin at the surface point, direction along the surface
/// normal.
#[derive(Clone, Copy, PartialEq, Eq, Structural, Debug)]
pub struct Ray {
    pub from: HVector,
    pub direction: HVector,
}

impl Ray {
    pub fn new(from: Vector3, direction: Vector3) -> (r: Ray)
        ensures
            r.from.x == from.x && r.from.y == from.y && r.from.z == from.z,
            r.from.w@ == SCALE,
            r.direction.x == direction.x && r.direction.y == direction.y
                && r.direction.z == direction.z,
            r.direction.w@ == SCALE,
    {
        Ray { from: from.to_homo_vector(), direction: direction.to_homo_vector() }
    }
}

/// The record of one successful intersection: the surface point and normal
/// as a normal ray (the normal need not be unit length), the surface's
/// 2-D texture coordinates, and the material resolved so far along the
/// object graph, if any.
#[derive(Clone, Copy, Debug)]
pub struct Hit {
    pub normal: Ray,
    pub texture_coordinates: (Fx, Fx),
    pub material: Option<Material>,
}

} // verus!
