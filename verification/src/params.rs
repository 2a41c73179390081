//! Physical and numerical constants of the simulation.
//!
//! Lengths are in pixels (one metre is drawn as 100 pixels), stored in the
//! fixed-point scale of [`crate::fixed`].  The kernel normalization constants
//! are derived from the smoothing radius `h = 10` pixels: the density kernel
//! is `(h^2 - r^2)^3 * 315 / (64 * pi * h^9)` inside the support disk, and the
//! magnitude of the pressure kernel gradient is
//! `(h^2 - r^2)^2 * 945 / (32 * pi * h^9)`.  Both are evaluated here by
//! dividing by the reciprocal coefficient, kept as a fixed-point constant.

use vstd::prelude::*;
use crate::fixed::FX_ONE;

verus! {

/// Pixels per metre.
pub const METRE: i64 = 100 * FX_ONE;

/// Particles per seeded row.
pub const P_NUMW: usize = 10;

/// Number of seeded rows.
pub const P_NUMH: usize = 30;

/// Total particle count of the default setup.
pub const P_SIZE: usize = P_NUMH * P_NUMW;

/// Drawn particle radius: half the seeding column spacing (5 px).
pub const P_RADIUS: i64 = 5 * FX_ONE;

/// Half the particle radius (2.5 px), used to offset the seeding lattice.
pub const HALF_P_RADIUS: i64 = 10737418240;

/// Horizontal seeding spacing: one metre spread over a row (10 px).
pub const P_STEP_X: i64 = 10 * FX_ONE;

/// Vertical seeding spacing: three metres spread over the rows (10 px).
pub const P_STEP_Y: i64 = 10 * FX_ONE;

/// Magnitude of the random per-axis seeding jitter (0.1 px).
pub const JITTER: i64 = 429496729;

/// Rest density: 997 kg/m^3 expressed per pixel volume, 997 / 100^3.
/// Fixed point of 0.000997 (truncated).
pub const RHO_INIT: i64 = 4282082;

/// Particle mass: a 1 m x 3 m x 3 m block of water split over `P_SIZE`
/// particles, 3 * 3 * 997 / 300 = 29.91.  Fixed point, truncated.
pub const P_MASS: i64 = 128462471823;

/// Gas stiffness of the equation of state: 138 m^2/s^2 = 1380000 px^2/s^2.
pub const GAS_K: i64 = 1380000 * FX_ONE;

/// Gravitational acceleration: 9.8 m/s^2 = 980 px/s^2.
pub const GRAVITY_ACCEL: i64 = 980 * FX_ONE;

/// Fixed timestep of one tick: 0.0005 s (truncated fixed point).
pub const TIME_DELTA: i64 = 2147483;

/// Smoothing radius `h`: 10 px.
pub const H_RADIUS: i64 = 10 * FX_ONE;

/// Squared smoothing radius `h^2`: 100 px^2.
pub const H_RADIUS_SQ: i64 = 100 * FX_ONE;

/// Domain width: 6 m = 600 px.
pub const WORLD_WIDTH: i64 = 600 * FX_ONE;

/// Domain height: 4 m = 400 px.
pub const WORLD_HEIGHT: i64 = 400 * FX_ONE;

/// Grid columns: domain width over the smoothing radius.
pub const GRID_WIDTH: usize = 60;

/// Grid rows: domain height over the smoothing radius.
pub const GRID_HEIGHT: usize = 40;

/// Total number of grid cells.
pub const N_CELLS: usize = GRID_HEIGHT * GRID_WIDTH;

/// Fraction of speed kept (with flipped sign) after a wall collision.
pub const COLLISION_DAMP: i64 = 2147483648;

/// Nudge that keeps a reflected particle strictly inside the domain (0.05 px).
pub const BOUNCE_BIAS: i64 = 214748364;

/// Density floor seeding every accumulation (fixed point of 0.000001).
pub const EPSILON: i64 = 4294;

/// Reciprocal of the density kernel coefficient: 64 * pi * h^9 / 315
/// for `h = 10` px, about 6.3829e8, in fixed point.
pub const POLY6_DIV: i64 = 2741442581236219392;

/// Reciprocal of the pressure gradient kernel coefficient: 32 * pi * h^9 / 945
/// for `h = 10` px, about 1.0638e8, in fixed point.
pub const GRAD_DIV: i64 = 456907096872703232;

/// Twice the fixed-point unit, for the symmetric pressure coefficient.
pub const TWO_FX: i64 = 2 * FX_ONE;

} // verus!
