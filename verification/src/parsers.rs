//! The scene-description grammar.
//!
//! Wavefront-style geometry and material text is recognised by plain
//! byte-level functions: each parser returns the unconsumed remainder
//! beside its result, and its contract pins the accepted language and the
//! split point exactly, through maximal-run lengths and literal matches.

pub mod bytes;
pub mod comment;
pub mod filename;
pub mod float;
pub mod geometry;
pub mod identifier;
pub mod integer;
pub mod texture_map;
pub mod material;
pub mod polygon;
pub mod whitespace;
