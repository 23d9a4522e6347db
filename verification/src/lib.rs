//! A two-dimensional smoothed-particle-hydrodynamics core.
//!
//! A fixed population of particles evolves under density-driven pressure
//! forces, optional gravity, and damped elastic boundary collisions.  All
//! simulation arithmetic is binary fixed point (sixteen fractional bits,
//! saturating at the `i64` range), so every pass has an exact contract and
//! a tick is a mathematical function of its inputs.

pub mod config;
pub mod fixed;
pub mod kernel;
pub mod scene;
pub mod sim;
pub mod vec2;
