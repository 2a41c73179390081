//! A 2D smoothed-particle-hydrodynamics (SPH) fluid core.
//!
//! Particles carry position, velocity, density and pressure in a fixed-point
//! scale (see [`fixed`]); each simulation tick rebuilds a uniform bucket grid,
//! computes per-particle neighbor sets and densities, derives pressures,
//! accumulates pressure-gradient and gravity forces, and integrates motion
//! with damped wall reflection.

pub mod fixed;
pub mod params;
pub mod kernel;
pub mod particle;
pub mod grid;
pub mod density;
pub mod force;
pub mod integrator;
pub mod sim;
