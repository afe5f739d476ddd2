//! Surface materials.
//!
//! A material's ambient, diffuse and specular reflectances must sum to
//! 1.0 within a small tolerance (energy conservation); construction fails
//! fast on anything else.

use vstd::prelude::*;
use crate::fx::{Fx, SCALE};
use crate::image::Colour;

verus! {

/// Tolerance, in raw units, on the reflectance sum: a few units absorb the
/// rounding of each coefficient onto the fixed-point grid.
pub const MATERIAL_EPSILON: i64 = 2;

#[derive(Clone, Copy, PartialEq, Eq, Structural, Debug)]
pub enum MaterialError {
    NotEnergyConserving,
}

/// The three reflectances sum to 1.0, within tolerance.
pub open spec fn energy_conserving(ambient: int, diffuse: int, specular: int) -> bool {
    -(MATERIAL_EPSILON as int) <= ambient + diffuse + specular - SCALE as int
        <= MATERIAL_EPSILON as int
}

#[derive(Clone, Copy, PartialEq, Eq, Structural, Debug)]
pub struct Material {
    pub ambient: Fx,
    pub diffuse: Fx,
    pub specular: Fx,
    pub shininess: Fx,
    pub colour: Colour,
}

impl Material {
    /// Builds a material, rejecting reflectances that do not conserve
    /// energy; exactly the inputs with `ambient + diffuse + specular`
    /// within tolerance of 1.0 are accepted.
    pub fn new(ambient: Fx, diffuse: Fx, specular: Fx, shininess: Fx, colour: Colour) -> (r:
        Result<Material, MaterialError>)
        ensures
            r is Ok <==> energy_conserving(ambient@, diffuse@, specular@),
            r is Ok ==> r->Ok_0 == (Material { ambient, diffuse, specular, shininess, colour }),
            r is Err ==> r->Err_0 == MaterialError::NotEnergyConserving,
    {
        let total: i128 = ambient.raw as i128 + diffuse.raw as i128 + specular.raw as i128;
        let deviation: i128 = total - 65536;
        if -(MATERIAL_EPSILON as i128) <= deviation && deviation <= MATERIAL_EPSILON as i128 {
            Ok(Material { ambient, diffuse, specular, shininess, colour })
        } else {
            Err(MaterialError::NotEnergyConserving)
        }
    }
}

/// The default material as a spec value.
pub open spec fn default_material_s() -> Material {
    Material {
        ambient: Fx { raw: 21845 },
        diffuse: Fx { raw: 21845 },
        specular: Fx { raw: 21845 },
        shininess: Fx { raw: 262144 },
        colour: Colour { red: Fx { raw: 65536 }, green: Fx { raw: 65536 }, blue: Fx { raw: 65536 } },
    }
}

impl Default for Material {
    /// An even split of the three reflectances (each one third, rounded
    /// down), a modest shininess, white base colour.
    fn default() -> (r: Material)
        ensures
            r.ambient@ == 21845 && r.diffuse@ == 21845 && r.specular@ == 21845,
            r.shininess@ == 4 * SCALE as int,
            r.colour.red@ == SCALE && r.colour.green@ == SCALE && r.colour.blue@ == SCALE,
            energy_conserving(r.ambient@, r.diffuse@, r.specular@),
            r == default_material_s(),
    {
        Material {
            ambient: Fx { raw: 21845 },
            diffuse: Fx { raw: 21845 },
            specular: Fx { raw: 21845 },
            shininess: Fx { raw: 262144 },
            colour: Colour::white(),
        }
    }
}

} // verus!
