//! Simulation core of a 2D physics platformer: an entity store with typed
//! component tables, a fixed-timestep scheduler, axis-separated collision
//! resolution, carry (parent/child) mechanics, hazards, exits, a camera
//! controller and an interpolated render extraction.
//!
//! All quantities are fixed point: positions and box corners in thousandths
//! of a tile, velocities in thousandths of a tile per second, times in
//! milliseconds. Window handling and the GPU renderer are external
//! collaborators; this crate only produces and consumes plain values.

pub mod math;
pub mod render;
pub mod components;
pub mod store;
pub mod physics;
pub mod input;
pub mod sched;
pub mod world;
pub mod level;
