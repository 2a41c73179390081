//! Particle state and the owned simulation context.

use vstd::prelude::*;
use crate::fixed::V2;

verus! {

/// Authoritative physical state of one particle.
#[derive(Clone, Copy, PartialEq, Eq, Structural, Debug)]
pub struct ParticleValue {
    /// Position in world units.
    pub pos: V2,
    /// Velocity in world units per second.
    pub vel: V2,
    /// Density estimated by the last committed density pass.
    pub rho: i64,
    /// Pressure derived from `rho` by the equation of state.
    pub press: i64,
}

/// Per-particle scratch state, overwritten every tick.
pub struct ParticleIdx {
    /// Index of the particle this scratch entry belongs to.
    pub idx: usize,
    /// Grid cell the particle was bucketed into by the last grid rebuild.
    pub map_idx: usize,
    /// Indices of the particles within the smoothing radius, self included.
    pub near_particles: Vec<usize>,
    /// Squared distance to each entry of `near_particles`, entry for entry.
    pub near_dist: Vec<i64>,
    /// Density computed by the current tick's density pass.
    pub rho: i64,
    /// Pressure computed by the current tick's density pass.
    pub press: i64,
    /// Acceleration computed by the current tick's force pass.
    pub accel: V2,
}

/// The particle array and the uniform bucket grid over the domain.
pub struct ParticleSystem {
    /// Dense array of particle state; particles are identified by index.
    pub particles: Vec<ParticleValue>,
    /// Per-cell lists of the indices of the particles inside each cell.
    pub particle_map: Vec<Vec<usize>>,
}

pub(crate) fn copy_usize_vec(v: &Vec<usize>) -> (r: Vec<usize>)
    ensures
        r@ == v@,
{
    let mut r: Vec<usize> = Vec::new();
    let mut i: usize = 0;
    while i < v.len()
        invariant
            i <= v@.len(),
            r@ == v@.take(i as int),
        decreases v@.len() - i,
    {
        proof {
            assert(v@.take(i as int + 1) =~= v@.take(i as int).push(v@[i as int]));
        }
        r.push(v[i]);
        i += 1;
    }
    proof {
        assert(v@.take(v@.len() as int) =~= v@);
    }
    r
}

pub(crate) fn copy_i64_vec(v: &Vec<i64>) -> (r: Vec<i64>)
    ensures
        r@ == v@,
{
    let mut r: Vec<i64> = Vec::new();
    let mut i: usize = 0;
    while i < v.len()
        invariant
            i <= v@.len(),
            r@ == v@.take(i as int),
        decreases v@.len() - i,
    {
        proof {
            assert(v@.take(i as int + 1) =~= v@.take(i as int).push(v@[i as int]));
        }
        r.push(v[i]);
        i += 1;
    }
    proof {
        assert(v@.take(v@.len() as int) =~= v@);
    }
    r
}

} // verus!
