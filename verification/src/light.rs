//! Light sources.

use vstd::prelude::*;
use crate::fx::{fdiv_s, fits_i64, Fx, SCALE};
use crate::image::Colour;
use crate::vector::{fits_dot, fits_sub, mag_s, sub_v, HVector};

verus! {

#[derive(Clone, Copy, PartialEq, Eq, Structural, Debug)]
#[allow(dead_code)]
pub enum LightShape {
    PointLight,
}

/// A white point light at a world-space location. The scene's depth axis
/// points away from the camera, so the stored location negates the given
/// `z` coordinate.
#[derive(Clone, Copy, Debug)]
pub struct Light {
    #[allow(dead_code)]
    pub shape: LightShape,
    pub location: HVector,
    pub colour: Colour,
}

impl Light {
    pub fn new(point: [Fx; 3]) -> (r: Light)
        requires
            fits_i64(-point[2]@),
        ensures
            r.location.x == point[0],
            r.location.y == point[1],
            r.location.z@ == -point[2]@,
            r.location.w@ == SCALE,
            r.colour.red@ == SCALE && r.colour.green@ == SCALE && r.colour.blue@ == SCALE,
    {
        Light {
            shape: LightShape::PointLight,
            location: HVector::new([point[0], point[1], point[2].neg()]),
            colour: Colour::white(),
        }
    }

    /// The unit direction from `point` toward the light.
    pub fn direction_from(&self, point: &HVector) -> (r: HVector)
        requires
            fits_sub(self.location, *point),
            fits_dot(sub_v(self.location, *point), sub_v(self.location, *point)),
            mag_s(sub_v(self.location, *point)) >= 1,
        ensures
            r.x@ == fdiv_s(sub_v(self.location, *point).x@, mag_s(sub_v(self.location, *point))),
            r.y@ == fdiv_s(sub_v(self.location, *point).y@, mag_s(sub_v(self.location, *point))),
            r.z@ == fdiv_s(sub_v(self.location, *point).z@, mag_s(sub_v(self.location, *point))),
            r.w@ == SCALE,
            -(SCALE as int) <= r.x@ <= SCALE as int,
            -(SCALE as int) <= r.y@ <= SCALE as int,
            -(SCALE as int) <= r.z@ <= SCALE as int,
    {
        let diff = self.location.sub(*point);
        proof {
            assert(diff == sub_v(self.location, *point));
        }
        diff.normalized()
    }
}

} // verus!
