//! A verified force-generator layer for a rigid-body sandbox: per-step,
//! per-body force computation (oscillating field, linear implosion,
//! inverse-square attractor with an orbiting center) over an in-memory
//! body set, in fixed-point integer arithmetic.

pub mod body_set;
pub mod input;
pub mod math;
pub mod rotation;
pub mod rules;
pub mod vec3;
pub mod world_force;
