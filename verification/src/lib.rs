//! Core of an interactive physics sandbox: a static environment (ground slab
//! plus perimeter walls) populated on demand with debris bodies whose convex
//! collision volumes are derived at runtime from triangulated mesh assets.
//!
//! Geometry lives on an exact integer coordinate grid, so every predicate the
//! contracts speak of (collinearity, coplanarity, hull degeneracy) is decided
//! exactly, with no rounding. Rendering, windowing and the physics engine
//! proper are external collaborators; this crate owns the mesh-to-collider
//! pipeline, the asset registry, the static environment builder and the spawn
//! lifecycle.

pub mod body;
pub mod collider;
pub mod environment;
pub mod geom;
pub mod mesh;
pub mod palette;
pub mod registry;
pub mod spawn;
