//! An offline ray-tracing renderer core.
//!
//! Geometry, transforms, intersection, shading and the scene-description
//! grammar are written over fixed-point scalars (`fx::Fx`), so every step
//! of the pipeline is plain integer arithmetic with an exact contract.
//! The fixed-point grid carries sixteen fractional bits; all rounding is
//! toward negative infinity and every public function states its result
//! exactly in those raw units.

pub mod camera;
pub mod fx;
pub mod image;
pub mod intersection;
pub mod light;
pub mod material;
pub mod matrix;
pub mod object;
pub mod parsers;
pub mod ray;
pub mod scene;
pub mod vector;

pub use fx::Fx;
