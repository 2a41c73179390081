//! Integration pass: advance velocity and position by the fixed timestep and
//! apply damped wall reflection against the four domain boundaries.
//!
//! Each axis is handled independently: a candidate coordinate below the lower
//! bound is reflected to `-candidate + bias`, one above the upper bound to
//! `upper - (candidate - upper) - bias`, and in either case the velocity
//! component flips sign and is scaled down by the restitution factor.  The
//! small bias nudges the particle strictly inside the domain so an exact
//! boundary tie does not re-trigger the reflection.

use vstd::prelude::*;
use vstd::arithmetic::div_mod::{
    lemma_div_is_ordered, lemma_div_multiples_vanish, lemma_fundamental_div_mod,
};
use crate::fixed::{V2, fadd, fsub, fmul, fadd_fx, fsub_fx, fmul_fx, tdiv, clip, FX_ONE, FX_MIN};
use crate::params::{TIME_DELTA, COLLISION_DAMP, BOUNCE_BIAS, WORLD_WIDTH, WORLD_HEIGHT};
use crate::particle::{ParticleValue, ParticleIdx, ParticleSystem};

verus! {

/// Advance one axis: new velocity from the acceleration, candidate position
/// from the new velocity, then wall reflection against `[0, hi]`.
/// Returns the committed position and velocity components.
pub open spec fn step_axis(p0: int, v0: int, a: int, hi: int) -> (int, int) {
    let v1 = fadd(v0, fmul(a, TIME_DELTA as int));
    let np = fadd(p0, fmul(v1, TIME_DELTA as int));
    if np < 0 {
        (fadd(-np, BOUNCE_BIAS as int), -fmul(COLLISION_DAMP as int, v1))
    } else if np > hi {
        (fsub(fsub(hi, fsub(np, hi)), BOUNCE_BIAS as int), -fmul(COLLISION_DAMP as int, v1))
    } else {
        (np, v1)
    }
}

/// One integration step of a particle under the given acceleration; density
/// and pressure ride along unchanged.
pub open spec fn integrate(p: ParticleValue, a: V2) -> ParticleValue {
    let sx = step_axis(p.pos.x as int, p.vel.x as int, a.x as int, WORLD_WIDTH as int);
    let sy = step_axis(p.pos.y as int, p.vel.y as int, a.y as int, WORLD_HEIGHT as int);
    ParticleValue {
        pos: V2 { x: sx.0 as i64, y: sy.0 as i64 },
        vel: V2 { x: sx.1 as i64, y: sy.1 as i64 },
        rho: p.rho,
        press: p.press,
    }
}

fn step_axis_fx(p0: i64, v0: i64, a: i64, hi: i64) -> (r: (i64, i64))
    ensures
        r.0 as int == step_axis(p0 as int, v0 as int, a as int, hi as int).0,
        r.1 as int == step_axis(p0 as int, v0 as int, a as int, hi as int).1,
{
    let v1 = fadd_fx(v0, fmul_fx(a, TIME_DELTA));
    let np = fadd_fx(p0, fmul_fx(v1, TIME_DELTA));
    if np < 0 {
        let damped = fmul_fx(COLLISION_DAMP, v1);
        (fadd_fx(-np, BOUNCE_BIAS), -damped)
    } else if np > hi {
        let damped = fmul_fx(COLLISION_DAMP, v1);
        (fsub_fx(fsub_fx(hi, fsub_fx(np, hi)), BOUNCE_BIAS), -damped)
    } else {
        (np, v1)
    }
}

/// Advance every particle by one timestep under the acceleration recorded in
/// its scratch entry, applying wall collision response.
pub fn apply_accel(ps: &mut ParticleSystem, idxs: &Vec<ParticleIdx>)
    requires
        idxs@.len() == old(ps).particles@.len(),
    ensures
        final(ps).particle_map@ == old(ps).particle_map@,
        final(ps).particles@.len() == old(ps).particles@.len(),
        forall|k: int|
            0 <= k < final(ps).particles@.len() ==> #[trigger] final(ps).particles@[k] == integrate(
                old(ps).particles@[k],
                idxs@[k].accel,
            ),
{
    let n = ps.particles.len();
    let ghost parts = ps.particles@;
    let mut out: Vec<ParticleValue> = Vec::new();
    let mut k: usize = 0;
    while k < n
        invariant
            n == parts.len(),
            parts == ps.particles@,
            idxs@.len() == n,
            k <= n,
            out@.len() == k,
            forall|kk: int|
                0 <= kk < k ==> #[trigger] out@[kk] == integrate(parts[kk], idxs@[kk].accel),
        decreases n - k,
    {
        let p = &ps.particles[k];
        let a = idxs[k].accel;
        let sx = step_axis_fx(p.pos.x, p.vel.x, a.x, WORLD_WIDTH);
        let sy = step_axis_fx(p.pos.y, p.vel.y, a.y, WORLD_HEIGHT);
        out.push(ParticleValue {
            pos: V2 { x: sx.0, y: sy.0 },
            vel: V2 { x: sx.1, y: sy.1 },
            rho: p.rho,
            press: p.press,
        });
        k += 1;
    }
    ps.particles = out;
}

/// Boundary reflection at the lower wall: a particle standing exactly on the
/// lower bound of an axis, moving toward the wall fast enough for the fixed
/// timestep to carry it at least one fixed-point step outward, ends the step
/// strictly inside the domain, with its velocity component flipped positive
/// and reduced in magnitude by the restitution factor.
pub proof fn lemma_lower_wall_reflection(p0: int, v0: int, hi: int)
    requires
        p0 == 0,
        FX_MIN <= v0 < 0,
        fmul(v0, TIME_DELTA as int) < 0,
        hi > 0,
    ensures
        step_axis(p0, v0, 0, hi).0 > 0,
        step_axis(p0, v0, 0, hi).1 > 0,
        step_axis(p0, v0, 0, hi).1 < -v0,
{
    let s = FX_ONE as int;
    let dt = TIME_DELTA as int;
    let damp = COLLISION_DAMP as int;
    let m = -v0;

    // with zero acceleration the velocity entering the step is v0 itself
    assert(fmul(0, dt) == 0) by {
        assert(tdiv(0 * dt, s) == 0);
    }
    let v1 = fadd(v0, 0);
    assert(v1 == v0);

    // the candidate position is the (negative) displacement of one step
    let np = fadd(0, fmul(v0, dt));
    assert(np == fmul(v0, dt));
    assert(np < 0);

    // the reflected position is strictly positive
    assert(step_axis(p0, v0, 0, hi).0 == fadd(-np, BOUNCE_BIAS as int));
    assert(fadd(-np, BOUNCE_BIAS as int) > 0);

    // the wall was only reached because the speed covers at least one
    // fixed-point step per tick, so the damped speed is still positive
    assert(m * dt >= 0) by (nonlinear_arith)
        requires
            m >= 0,
            dt >= 0,
    {}
    assert(tdiv(v0 * dt, s) == -((m * dt) / s)) by {
        assert(v0 * dt == -(m * dt)) by (nonlinear_arith)
            requires
                m == -v0,
        {}
    }
    assert((m * dt) / s >= 1);
    if m < 2 {
        assert(m == 1);
        assert(m * dt == dt) by (nonlinear_arith)
            requires
                m == 1,
        {}
        lemma_div_is_ordered(m * dt, s - 1, s);
        assert((s - 1) / s == 0) by {
            vstd::arithmetic::div_mod::lemma_basic_div(s - 1, s);
        }
        assert(false);
    }
    assert(m >= 2);

    // the damped velocity: `damp * m / s` is at least one and less than `m`
    let q = (m * damp) / s;
    assert(m * damp >= s) by (nonlinear_arith)
        requires
            m >= 2,
            damp * 2 == s,
            m * damp >= 0,
    {}
    lemma_div_multiples_vanish(1, s);
    lemma_div_is_ordered(s, m * damp, s);
    assert(q >= 1);
    lemma_fundamental_div_mod(m * damp, s);
    assert(s * q <= m * damp);
    assert(2 * q <= m) by (nonlinear_arith)
        requires
            s * q <= m * damp,
            s == 2 * damp,
            damp > 0,
    {}
    assert(q < m);

    assert(v0 * damp == -(m * damp)) by (nonlinear_arith)
        requires
            m == -v0,
    {}
    assert(fmul(damp, v0) == clip(-q)) by {
        assert(damp * v0 == v0 * damp);
        assert(tdiv(damp * v0, s) == -q);
    }
    assert(clip(-q) == -q);
    assert(step_axis(p0, v0, 0, hi).1 == q);
}

} // verus!
