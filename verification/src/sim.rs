//! Simulation setup and the per-tick driver.
//!
//! A system is seeded once, on a regular lattice with a small random jitter,
//! and then advanced tick by tick.  Each tick runs the passes in strict
//! order: grid rebuild, density/pressure solve, commit, force solve,
//! integration.  Every pass finishes over the whole particle array before
//! the next one starts, so no pass observes a partially updated field.

use vstd::prelude::*;
use vstd::arithmetic::div_mod::{lemma_div_is_ordered, lemma_mod_division_less_than_divisor};
use rand::Rng;
use crate::fixed::{V2, fadd, fsub, smul, fadd_fx, fsub_fx, smul_fx};
use crate::params::{
    P_NUMW, P_NUMH, P_SIZE, P_STEP_X, P_STEP_Y, HALF_P_RADIUS, JITTER, RHO_INIT, N_CELLS,
};
use crate::particle::{ParticleValue, ParticleIdx, ParticleSystem};
use crate::grid::{cell_of, near_cells, calculate_map};
use crate::density::{
    neighbors_of, neighbor_dists_of, rho_of, press_of_rho, calculate_rho, apply_rho,
    lemma_gather_entries,
};
use crate::force::{accel_of, calculate_accel};
use crate::integrator::{integrate, apply_accel};

verus! {

/// X coordinate of lattice slot `k`: column spacing times the one-based
/// column, pulled back by half a particle radius.
pub open spec fn lattice_x(k: int, numw: int, step_x: int) -> int {
    fsub(smul(k % numw + 1, step_x), HALF_P_RADIUS as int)
}

/// Y coordinate of lattice slot `k`: row spacing times the one-based row,
/// pulled back by half a particle radius.
pub open spec fn lattice_y(k: int, numw: int, step_y: int) -> int {
    fsub(smul(k / numw + 1, step_y), HALF_P_RADIUS as int)
}

/// The particle seeded into lattice slot `k`: at rest on its jittered
/// lattice point, with density and pressure not yet computed.
pub open spec fn seeded_particle(
    k: int,
    numw: int,
    step_x: int,
    step_y: int,
    jx: int,
    jy: int,
) -> ParticleValue {
    ParticleValue {
        pos: V2 {
            x: fadd(lattice_x(k, numw, step_x), jx) as i64,
            y: fadd(lattice_y(k, numw, step_y), jy) as i64,
        },
        vel: V2 { x: 0, y: 0 },
        rho: 0,
        press: 0,
    }
}

/// The particle array after the density pass commits: positions and
/// velocities untouched, density and pressure as the pass computed them.
pub open spec fn committed(parts: Seq<ParticleValue>) -> Seq<ParticleValue> {
    Seq::new(
        parts.len(),
        |i: int|
            ParticleValue {
                pos: parts[i].pos,
                vel: parts[i].vel,
                rho: rho_of(parts, i) as i64,
                press: press_of_rho(rho_of(parts, i)) as i64,
            },
    )
}

/// The particle array after one full tick: every particle integrated under
/// the acceleration computed from the committed snapshot and its neighbors.
pub open spec fn tick_spec(parts: Seq<ParticleValue>) -> Seq<ParticleValue> {
    let mid = committed(parts);
    Seq::new(
        parts.len(),
        |i: int|
            integrate(
                mid[i],
                accel_of(mid, neighbors_of(parts, i), neighbor_dists_of(parts, i), i),
            ),
    )
}

/// Relies on rand's `Rng::gen_range` over `thread_rng` on the inclusive
/// integer range `-bound..=bound`: the range is non-empty, so the call does
/// not panic, and the sample lies within the bounds.
#[verifier::external_body]
fn jitter_fx(bound: i64) -> (r: i64)
    requires
        bound > 0,
    ensures
        -bound <= r <= bound,
{
    rand::thread_rng().gen_range(-bound..=bound)
}

/// Build a system of `numw * numh` particles at rest on a lattice, each
/// displaced by the given per-particle jitter, with all grid cells empty.
pub fn seed_grid(
    numw: usize,
    numh: usize,
    step_x: i64,
    step_y: i64,
    jx: &Vec<i64>,
    jy: &Vec<i64>,
) -> (ps: ParticleSystem)
    requires
        1 <= numw <= 10000,
        1 <= numh <= 10000,
        jx@.len() == numw * numh,
        jy@.len() == numw * numh,
    ensures
        ps.particles@.len() == numw * numh,
        forall|k: int|
            0 <= k < ps.particles@.len() ==> #[trigger] ps.particles@[k] == seeded_particle(
                k,
                numw as int,
                step_x as int,
                step_y as int,
                jx@[k] as int,
                jy@[k] as int,
            ),
        ps.particle_map@.len() == N_CELLS,
        forall|c: int| 0 <= c < N_CELLS ==> (#[trigger] ps.particle_map@[c])@.len() == 0,
{
    proof {
        assert(numw * numh <= 100000000) by (nonlinear_arith)
            requires
                1 <= numw <= 10000,
                1 <= numh <= 10000,
        {}
    }
    let total = numw * numh;
    let mut particles: Vec<ParticleValue> = Vec::new();
    let mut k: usize = 0;
    while k < total
        invariant
            1 <= numw <= 10000,
            1 <= numh <= 10000,
            total == numw * numh,
            total <= 100000000,
            jx@.len() == total,
            jy@.len() == total,
            k <= total,
            particles@.len() == k,
            forall|kk: int|
                0 <= kk < k ==> #[trigger] particles@[kk] == seeded_particle(
                    kk,
                    numw as int,
                    step_x as int,
                    step_y as int,
                    jx@[kk] as int,
                    jy@[kk] as int,
                ),
        decreases total - k,
    {
        let col = k % numw;
        let row = k / numw;
        proof {
            lemma_mod_division_less_than_divisor(k as int, numw as int);
            lemma_div_is_ordered(k as int, total as int - 1, numw as int);
        }
        let x = fadd_fx(fsub_fx(smul_fx(col as i64 + 1, step_x), HALF_P_RADIUS), jx[k]);
        let y = fadd_fx(fsub_fx(smul_fx(row as i64 + 1, step_y), HALF_P_RADIUS), jy[k]);
        particles.push(
            ParticleValue { pos: V2 { x, y }, vel: V2 { x: 0, y: 0 }, rho: 0, press: 0 },
        );
        k += 1;
    }

    let mut particle_map: Vec<Vec<usize>> = Vec::new();
    let mut c: usize = 0;
    while c < N_CELLS
        invariant
            particle_map@.len() == c,
            c <= N_CELLS,
            forall|d: int| 0 <= d < c ==> (#[trigger] particle_map@[d])@.len() == 0,
        decreases N_CELLS - c,
    {
        particle_map.push(Vec::new());
        c += 1;
    }

    ParticleSystem { particles, particle_map }
}

impl ParticleSystem {
    /// Seed the default setup: `P_NUMH` rows of `P_NUMW` particles at rest,
    /// each jittered by at most [`JITTER`] per axis, with an empty grid.
    pub fn new() -> (ps: ParticleSystem)
        ensures
            ps.particles@.len() == P_SIZE,
            forall|k: int|
                0 <= k < P_SIZE ==> {
                    let p = #[trigger] ps.particles@[k];
                    &&& p.vel == (V2 { x: 0, y: 0 })
                    &&& p.rho == 0
                    &&& p.press == 0
                    &&& lattice_x(k, P_NUMW as int, P_STEP_X as int) - JITTER <= p.pos.x as int
                        <= lattice_x(k, P_NUMW as int, P_STEP_X as int) + JITTER
                    &&& lattice_y(k, P_NUMW as int, P_STEP_Y as int) - JITTER <= p.pos.y as int
                        <= lattice_y(k, P_NUMW as int, P_STEP_Y as int) + JITTER
                },
            ps.particle_map@.len() == N_CELLS,
            forall|c: int| 0 <= c < N_CELLS ==> (#[trigger] ps.particle_map@[c])@.len() == 0,
    {
        let mut jx: Vec<i64> = Vec::new();
        let mut jy: Vec<i64> = Vec::new();
        let mut k: usize = 0;
        while k < P_SIZE
            invariant
                k <= P_SIZE,
                jx@.len() == k,
                jy@.len() == k,
                forall|kk: int| 0 <= kk < k ==> -JITTER <= #[trigger] jx@[kk] <= JITTER,
                forall|kk: int| 0 <= kk < k ==> -JITTER <= #[trigger] jy@[kk] <= JITTER,
            decreases P_SIZE - k,
        {
            jx.push(jitter_fx(JITTER));
            jy.push(jitter_fx(JITTER));
            k += 1;
        }
        let ps = seed_grid(P_NUMW, P_NUMH, P_STEP_X, P_STEP_Y, &jx, &jy);
        proof {
            assert forall|k2: int| 0 <= k2 < P_SIZE implies {
                let p = #[trigger] ps.particles@[k2];
                &&& p.vel == (V2 { x: 0, y: 0 })
                &&& p.rho == 0
                &&& p.press == 0
                &&& lattice_x(k2, P_NUMW as int, P_STEP_X as int) - JITTER <= p.pos.x as int
                    <= lattice_x(k2, P_NUMW as int, P_STEP_X as int) + JITTER
                &&& lattice_y(k2, P_NUMW as int, P_STEP_Y as int) - JITTER <= p.pos.y as int
                    <= lattice_y(k2, P_NUMW as int, P_STEP_Y as int) + JITTER
            } by {
                lemma_mod_division_less_than_divisor(k2, P_NUMW as int);
                lemma_div_is_ordered(k2, P_SIZE as int - 1, P_NUMW as int);
                assert(0 <= k2 % (P_NUMW as int) < P_NUMW);
                assert(0 <= k2 / (P_NUMW as int) <= P_NUMH);
            }
        }
        ps
    }
}

/// Fresh per-particle scratch entries for `n` particles: entry `k` belongs
/// to particle `k`, with empty neighbor caches and the rest-density seed.
pub fn new_scratch(n: usize) -> (idxs: Vec<ParticleIdx>)
    ensures
        idxs@.len() == n,
        forall|k: int|
            0 <= k < n ==> {
                let e = #[trigger] idxs@[k];
                &&& e.idx == k
                &&& e.map_idx == 0
                &&& e.near_particles@.len() == 0
                &&& e.near_dist@.len() == 0
                &&& e.rho == RHO_INIT
                &&& e.press == 0
                &&& e.accel == (V2 { x: 0, y: 0 })
            },
{
    let mut idxs: Vec<ParticleIdx> = Vec::new();
    let mut k: usize = 0;
    while k < n
        invariant
            k <= n,
            idxs@.len() == k,
            forall|kk: int|
                0 <= kk < k ==> {
                    let e = #[trigger] idxs@[kk];
                    &&& e.idx == kk
                    &&& e.map_idx == 0
                    &&& e.near_particles@.len() == 0
                    &&& e.near_dist@.len() == 0
                    &&& e.rho == RHO_INIT
                    &&& e.press == 0
                    &&& e.accel == (V2 { x: 0, y: 0 })
                },
        decreases n - k,
    {
        idxs.push(
            ParticleIdx {
                idx: k,
                map_idx: 0,
                near_particles: Vec::new(),
                near_dist: Vec::new(),
                rho: RHO_INIT,
                press: 0,
                accel: V2 { x: 0, y: 0 },
            },
        );
        k += 1;
    }
    idxs
}

/// Wrap a bare particle array into a system with an empty grid.
pub fn from_particles(particles: Vec<ParticleValue>) -> (ps: ParticleSystem)
    ensures
        ps.particles@ == particles@,
        ps.particle_map@.len() == N_CELLS,
        forall|c: int| 0 <= c < N_CELLS ==> (#[trigger] ps.particle_map@[c])@.len() == 0,
{
    let mut particle_map: Vec<Vec<usize>> = Vec::new();
    let mut c: usize = 0;
    while c < N_CELLS
        invariant
            particle_map@.len() == c,
            c <= N_CELLS,
            forall|d: int| 0 <= d < c ==> (#[trigger] particle_map@[d])@.len() == 0,
        decreases N_CELLS - c,
    {
        particle_map.push(Vec::new());
        c += 1;
    }
    ParticleSystem { particles, particle_map }
}

/// Particle count is conserved: a tick never creates, destroys or
/// duplicates a particle, so any number of ticks keeps the count.
pub proof fn lemma_tick_preserves_count(parts: Seq<ParticleValue>)
    ensures
        tick_spec(parts).len() == parts.len(),
{
}

/// A coordinate pinned to the saturation bound: the closest thing this
/// arithmetic has to a non-finite value, and a sign of numerical blow-up.
pub open spec fn saturated_v2(v: V2) -> bool {
    ||| v.x == crate::fixed::FX_MAX
    ||| v.x == crate::fixed::FX_MIN
    ||| v.y == crate::fixed::FX_MAX
    ||| v.y == crate::fixed::FX_MIN
}

/// Report whether any particle's position has saturated, so a host can treat
/// the tick as a fatal diagnostic event instead of letting one blown-up
/// particle contaminate its neighbors' densities in later ticks.
pub fn any_position_saturated(ps: &ParticleSystem) -> (r: bool)
    ensures
        r == exists|i: int|
            0 <= i < ps.particles@.len() && saturated_v2((#[trigger] ps.particles@[i]).pos),
{
    let n = ps.particles.len();
    let mut i: usize = 0;
    while i < n
        invariant
            n == ps.particles@.len(),
            i <= n,
            forall|k: int| 0 <= k < i ==> !saturated_v2((#[trigger] ps.particles@[k]).pos),
        decreases n - i,
    {
        let p = ps.particles[i].pos;
        if p.x == crate::fixed::FX_MAX || p.x == crate::fixed::FX_MIN
            || p.y == crate::fixed::FX_MAX || p.y == crate::fixed::FX_MIN {
            return true;
        }
        i += 1;
    }
    false
}

/// Advance the simulation by one fixed timestep: grid rebuild, density and
/// pressure solve, commit, force solve, integration, in strict order.
/// The particle count is conserved: no particle is created or destroyed.
pub fn tick(ps: &mut ParticleSystem, idxs: &mut Vec<ParticleIdx>)
    requires
        old(idxs)@.len() == old(ps).particles@.len(),
    ensures
        final(ps).particles@.len() == old(ps).particles@.len(),
        final(ps).particles@ == tick_spec(old(ps).particles@),
        final(idxs)@.len() == old(idxs)@.len(),
        forall|k: int|
            0 <= k < final(idxs)@.len() ==> {
                let f = #[trigger] final(idxs)@[k];
                &&& f.idx == old(idxs)@[k].idx
                &&& f.map_idx as int == cell_of(old(ps).particles@[k].pos)
                &&& f.near_particles@ == neighbors_of(old(ps).particles@, k)
                &&& f.near_dist@ == neighbor_dists_of(old(ps).particles@, k)
                &&& f.rho as int == rho_of(old(ps).particles@, k)
                &&& f.press as int == press_of_rho(rho_of(old(ps).particles@, k))
                &&& f.accel == accel_of(
                    committed(old(ps).particles@),
                    neighbors_of(old(ps).particles@, k),
                    neighbor_dists_of(old(ps).particles@, k),
                    k,
                )
            },
{
    let n_exec = ps.particles.len();
    let ghost parts0 = ps.particles@;
    proof {
        assert(parts0.len() == n_exec);
    }

    calculate_map(ps, idxs);
    calculate_rho(ps, idxs);
    apply_rho(ps, idxs);
    proof {
        assert(ps.particles@ =~= committed(parts0));
        assert forall|k: int, t: int|
            #![trigger idxs@[k].near_particles@[t]]
            0 <= k < idxs@.len() && 0 <= t < idxs@[k].near_particles@.len()
            implies idxs@[k].near_particles@[t] < ps.particles@.len() by {
            lemma_gather_entries(parts0, near_cells(cell_of(parts0[k].pos)), parts0[k].pos);
        }
        assert forall|k: int| 0 <= k < idxs@.len() implies (#[trigger] idxs@[k]).near_dist@.len()
            == idxs@[k].near_particles@.len() by {
            lemma_gather_entries(parts0, near_cells(cell_of(parts0[k].pos)), parts0[k].pos);
        }
    }
    calculate_accel(ps, idxs);
    apply_accel(ps, idxs);
    proof {
        assert(ps.particles@ =~= tick_spec(parts0));
    }
}

} // verus!
