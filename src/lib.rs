//! Fixed-point simulation core of a top-down arena game: geometry, seeded
//! randomness, an immediate-mode vertex encoder and the per-tick entity
//! simulation, with its movement and collision rules.

pub mod geom;
pub mod rng;
pub mod canvas;
pub mod input;
pub mod rules;
pub mod motion;
pub mod collide;
pub mod sim;
