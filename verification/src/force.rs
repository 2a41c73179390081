//! Force pass: pressure-gradient force plus gravity.
//!
//! For each particle the pass folds over its recorded neighbors a symmetric
//! pressure term scaled by the pressure kernel gradient and the offset to the
//! neighbor, then scales the accumulated vector by `mass / density` and adds
//! gravity.  It reads only the density/pressure snapshot committed for the
//! whole particle set by the density pass.

use vstd::prelude::*;
use crate::fixed::{
    V2, fadd, fsub, fmul, fdiv, fadd_fx, fsub_fx, fmul_fx, fdiv_fx, FX_MAX,
    lemma_fsub_antisym, lemma_fmul_neg,
};
use crate::kernel::{w_grad, pressure_kernel_gradient};
use crate::params::{P_MASS, GRAVITY_ACCEL, TWO_FX, EPSILON};
use crate::particle::{ParticleValue, ParticleIdx, ParticleSystem};

verus! {

/// Symmetric pressure coefficient of neighbor `j` seen from a particle with
/// pressure `press_i`: `(press_j + press_i) / (2 * rho_j)`.
pub open spec fn pair_coeff(parts: Seq<ParticleValue>, j: int, press_i: int) -> int {
    fdiv(fadd(parts[j].press as int, press_i), fmul(TWO_FX as int, parts[j].rho as int))
}

/// X component of the pressure term contributed by neighbor `j` at squared
/// distance `d2` to a particle at `pos` with pressure `press_i`.
pub open spec fn press_term_x(
    parts: Seq<ParticleValue>,
    j: int,
    d2: int,
    pos: V2,
    press_i: int,
) -> int {
    fmul(
        fmul(pair_coeff(parts, j, press_i), w_grad(d2)),
        fsub(pos.x as int, parts[j].pos.x as int),
    )
}

/// Y component of the pressure term contributed by neighbor `j`.
pub open spec fn press_term_y(
    parts: Seq<ParticleValue>,
    j: int,
    d2: int,
    pos: V2,
    press_i: int,
) -> int {
    fmul(
        fmul(pair_coeff(parts, j, press_i), w_grad(d2)),
        fsub(pos.y as int, parts[j].pos.y as int),
    )
}

/// X component of the pressure vector folded over the neighbor list.
pub open spec fn pvec_x(
    parts: Seq<ParticleValue>,
    near: Seq<usize>,
    d2s: Seq<i64>,
    pos: V2,
    press_i: int,
) -> int
    decreases near.len(),
{
    if near.len() == 0 {
        0
    } else {
        fadd(
            pvec_x(parts, near.drop_last(), d2s.drop_last(), pos, press_i),
            press_term_x(parts, near.last() as int, d2s[near.len() - 1] as int, pos, press_i),
        )
    }
}

/// Y component of the pressure vector folded over the neighbor list.
pub open spec fn pvec_y(
    parts: Seq<ParticleValue>,
    near: Seq<usize>,
    d2s: Seq<i64>,
    pos: V2,
    press_i: int,
) -> int
    decreases near.len(),
{
    if near.len() == 0 {
        0
    } else {
        fadd(
            pvec_y(parts, near.drop_last(), d2s.drop_last(), pos, press_i),
            press_term_y(parts, near.last() as int, d2s[near.len() - 1] as int, pos, press_i),
        )
    }
}

/// Acceleration of particle `i` given its neighbor and distance lists:
/// gravity plus the pressure vector scaled by `mass / rho_i`.
pub open spec fn accel_of(
    parts: Seq<ParticleValue>,
    near: Seq<usize>,
    d2s: Seq<i64>,
    i: int,
) -> V2 {
    let pos = parts[i].pos;
    let press_i = parts[i].press as int;
    let coeff = fdiv(P_MASS as int, parts[i].rho as int);
    V2 {
        x: fadd(0, fmul(pvec_x(parts, near, d2s, pos, press_i), coeff)) as i64,
        y: fadd(
            -(GRAVITY_ACCEL as int),
            fmul(pvec_y(parts, near, d2s, pos, press_i), coeff),
        ) as i64,
    }
}

/// Compute every particle's acceleration from the committed snapshot and the
/// scratch neighbor lists, writing it into the scratch entries.
pub fn calculate_accel(ps: &ParticleSystem, idxs: &mut Vec<ParticleIdx>)
    requires
        old(idxs)@.len() == ps.particles@.len(),
        forall|k: int, t: int|
            #![trigger old(idxs)@[k].near_particles@[t]]
            0 <= k < old(idxs)@.len() && 0 <= t < old(idxs)@[k].near_particles@.len()
                ==> old(idxs)@[k].near_particles@[t] < ps.particles@.len(),
        forall|k: int|
            0 <= k < old(idxs)@.len() ==> (#[trigger] old(idxs)@[k]).near_dist@.len() == old(
                idxs,
            )@[k].near_particles@.len(),
        forall|i: int| 0 <= i < ps.particles@.len() ==> (#[trigger] ps.particles@[i]).rho >= EPSILON,
    ensures
        final(idxs)@.len() == old(idxs)@.len(),
        forall|k: int|
            0 <= k < final(idxs)@.len() ==> {
                let f = #[trigger] final(idxs)@[k];
                let o = old(idxs)@[k];
                &&& f.idx == o.idx
                &&& f.map_idx == o.map_idx
                &&& f.near_particles@ == o.near_particles@
                &&& f.near_dist@ == o.near_dist@
                &&& f.rho == o.rho
                &&& f.press == o.press
                &&& f.accel == accel_of(ps.particles@, o.near_particles@, o.near_dist@, k)
            },
{
    let n = ps.particles.len();
    let ghost parts = ps.particles@;
    let mut out: Vec<ParticleIdx> = Vec::new();
    let mut k: usize = 0;
    while k < n
        invariant
            n == parts.len(),
            parts == ps.particles@,
            idxs@.len() == n,
            forall|kk: int, t: int|
                #![trigger idxs@[kk].near_particles@[t]]
                0 <= kk < n && 0 <= t < idxs@[kk].near_particles@.len()
                    ==> idxs@[kk].near_particles@[t] < n,
            forall|kk: int|
                0 <= kk < n ==> (#[trigger] idxs@[kk]).near_dist@.len()
                    == idxs@[kk].near_particles@.len(),
            forall|i: int| 0 <= i < n ==> (#[trigger] parts[i]).rho >= EPSILON,
            k <= n,
            out@.len() == k,
            forall|kk: int|
                0 <= kk < k ==> {
                    let f = #[trigger] out@[kk];
                    let o = idxs@[kk];
                    &&& f.idx == o.idx
                    &&& f.map_idx == o.map_idx
                    &&& f.near_particles@ == o.near_particles@
                    &&& f.near_dist@ == o.near_dist@
                    &&& f.rho == o.rho
                    &&& f.press == o.press
                    &&& f.accel == accel_of(parts, o.near_particles@, o.near_dist@, kk)
                },
        decreases n - k,
    {
        let pos = ps.particles[k].pos;
        let press_i = ps.particles[k].press;
        let rho_i = ps.particles[k].rho;
        let ghost near = idxs@[k as int].near_particles@;
        let ghost d2s = idxs@[k as int].near_dist@;

        let mut pvx: i64 = 0;
        let mut pvy: i64 = 0;
        let m = idxs[k].near_particles.len();
        let mut t: usize = 0;
        while t < m
            invariant
                n == parts.len(),
                parts == ps.particles@,
                idxs@.len() == n,
                k < n,
                near == idxs@[k as int].near_particles@,
                d2s == idxs@[k as int].near_dist@,
                m == near.len(),
                d2s.len() == near.len(),
                forall|tt: int| 0 <= tt < near.len() ==> #[trigger] near[tt] < n,
                forall|i: int| 0 <= i < n ==> (#[trigger] parts[i]).rho >= EPSILON,
                t <= m,
                pvx as int == pvec_x(parts, near.take(t as int), d2s.take(t as int), pos, press_i as int),
                pvy as int == pvec_y(parts, near.take(t as int), d2s.take(t as int), pos, press_i as int),
            decreases m - t,
        {
            proof {
                assert(near.take(t as int + 1).drop_last() =~= near.take(t as int));
                assert(d2s.take(t as int + 1).drop_last() =~= d2s.take(t as int));
            }
            let j = idxs[k].near_particles[t];
            let d2 = idxs[k].near_dist[t];
            let near_rho = ps.particles[j].rho;
            let near_press = ps.particles[j].press;
            let denom = fmul_fx(TWO_FX, near_rho);
            proof {
                lemma_two_rho_pos(near_rho as int);
            }
            let nc = fdiv_fx(fadd_fx(near_press, press_i), denom);
            let g = pressure_kernel_gradient(d2);
            let scale = fmul_fx(nc, g);
            pvx = fadd_fx(pvx, fmul_fx(scale, fsub_fx(pos.x, ps.particles[j].pos.x)));
            pvy = fadd_fx(pvy, fmul_fx(scale, fsub_fx(pos.y, ps.particles[j].pos.y)));
            t += 1;
        }
        proof {
            assert(near.take(near.len() as int) =~= near);
            assert(d2s.take(d2s.len() as int) =~= d2s);
        }

        proof {
            lemma_two_rho_pos(rho_i as int);
        }
        let coeff = fdiv_fx(P_MASS, rho_i);
        let ax = fadd_fx(0, fmul_fx(pvx, coeff));
        let ay = fadd_fx(-GRAVITY_ACCEL, fmul_fx(pvy, coeff));

        let e = &idxs[k];
        out.push(ParticleIdx {
            idx: e.idx,
            map_idx: e.map_idx,
            near_particles: crate::particle::copy_usize_vec(&e.near_particles),
            near_dist: crate::particle::copy_i64_vec(&e.near_dist),
            rho: e.rho,
            press: e.press,
            accel: V2 { x: ax, y: ay },
        });
        k += 1;
    }
    *idxs = out;
}

/// A density at or above the floor gives a positive divisor, doubled or not.
proof fn lemma_two_rho_pos(rho: int)
    requires
        rho >= EPSILON,
    ensures
        fmul(TWO_FX as int, rho) > 0,
        rho > 0,
{
    let s = crate::fixed::FX_ONE as int;
    assert(TWO_FX as int * rho >= s) by (nonlinear_arith)
        requires
            rho >= 1,
            TWO_FX as int == 2 * s,
            s > 0,
    {}
    vstd::arithmetic::div_mod::lemma_div_multiples_vanish(1, s);
    vstd::arithmetic::div_mod::lemma_div_is_ordered(s, TWO_FX as int * rho, s);
}

/// A particle whose only neighbor is itself feels pure gravity: the self
/// term carries a zero offset vector, so the pressure force vanishes.
pub proof fn lemma_accel_isolated(parts: Seq<ParticleValue>, i: int)
    requires
        parts.len() <= usize::MAX,
        0 <= i < parts.len(),
    ensures
        accel_of(parts, seq![i as usize], seq![0i64], i) == (V2 {
            x: 0,
            y: (-(GRAVITY_ACCEL as int)) as i64,
        }),
{
    let pos = parts[i].pos;
    let press_i = parts[i].press as int;
    let near = seq![i as usize];
    let d2s = seq![0i64];
    assert(near.drop_last() =~= Seq::<usize>::empty());
    assert(d2s.drop_last() =~= Seq::<i64>::empty());
    assert(near.last() as int == i);
    assert(d2s[near.len() - 1] == 0i64);
    assert(pvec_x(parts, near.drop_last(), d2s.drop_last(), pos, press_i) == 0);
    assert(pvec_y(parts, near.drop_last(), d2s.drop_last(), pos, press_i) == 0);
    let scale = fmul(pair_coeff(parts, i, press_i), w_grad(0));
    crate::fixed::lemma_fmul_zero(scale);
    assert(press_term_x(parts, i, 0, pos, press_i) == 0);
    assert(press_term_y(parts, i, 0, pos, press_i) == 0);
    assert(pvec_x(parts, near, d2s, pos, press_i) == 0);
    assert(pvec_y(parts, near, d2s, pos, press_i) == 0);
    let coeff = fdiv(P_MASS as int, parts[i].rho as int);
    crate::fixed::lemma_fmul_zero(coeff);
}

/// Newton's third law on the pairwise pressure term: between two particles
/// of equal density, the term each contributes to the other is equal in
/// magnitude and opposite in direction.
pub proof fn lemma_pressure_term_antisymmetric(
    parts: Seq<ParticleValue>,
    i: int,
    j: int,
    d2: int,
)
    requires
        0 <= i < parts.len(),
        0 <= j < parts.len(),
        parts[i].rho == parts[j].rho,
        parts[i].press == parts[j].press,
    ensures
        press_term_x(parts, j, d2, parts[i].pos, parts[i].press as int) == -press_term_x(
            parts,
            i,
            d2,
            parts[j].pos,
            parts[j].press as int,
        ),
        press_term_y(parts, j, d2, parts[i].pos, parts[i].press as int) == -press_term_y(
            parts,
            i,
            d2,
            parts[j].pos,
            parts[j].press as int,
        ),
{
    let scale = fmul(pair_coeff(parts, j, parts[i].press as int), w_grad(d2));
    assert(pair_coeff(parts, j, parts[i].press as int) == pair_coeff(
        parts,
        i,
        parts[j].press as int,
    ));
    lemma_fsub_antisym(parts[i].pos.x as int, parts[j].pos.x as int);
    lemma_fsub_antisym(parts[i].pos.y as int, parts[j].pos.y as int);
    lemma_fmul_neg(scale, fsub(parts[j].pos.x as int, parts[i].pos.x as int));
    lemma_fmul_neg(scale, fsub(parts[j].pos.y as int, parts[i].pos.y as int));
}

} // verus!
