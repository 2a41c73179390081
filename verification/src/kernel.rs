//! Smoothing kernel functions.
//!
//! Both kernels are pure functions of a squared distance `r2`; they vanish at
//! and beyond the squared smoothing radius, so an exact-boundary neighbor
//! contributes nothing.  Inside the support they evaluate a power of
//! `h^2 - r2` scaled by the normalization constant of [`crate::params`].

use vstd::prelude::*;
use crate::fixed::{fadd, fsub, fmul, fdiv, fadd_fx, fsub_fx, fmul_fx, fdiv_fx};
use crate::fixed::{lemma_fmul_sq_nonneg, lemma_fmul_nonneg, lemma_fdiv_nonneg, FX_MAX};
use crate::params::{H_RADIUS_SQ, POLY6_DIV, GRAD_DIV};

verus! {

/// Value of the density kernel at squared distance `r2`:
/// `(h^2 - r2)^3 * 315 / (64 * pi * h^9)` inside the support, else zero.
pub open spec fn w_dens(r2: int) -> int {
    if r2 >= H_RADIUS_SQ as int {
        0
    } else {
        let u = fsub(H_RADIUS_SQ as int, r2);
        fdiv(fmul(fmul(u, u), u), POLY6_DIV as int)
    }
}

/// Magnitude of the pressure kernel gradient at squared distance `r2`:
/// `(h^2 - r2)^2 * 945 / (32 * pi * h^9)` inside the support, else zero.
pub open spec fn w_grad(r2: int) -> int {
    if r2 >= H_RADIUS_SQ as int {
        0
    } else {
        let u = fsub(H_RADIUS_SQ as int, r2);
        fdiv(fmul(u, u), GRAD_DIV as int)
    }
}

/// Evaluate the density kernel.
pub fn density_kernel(r2: i64) -> (w: i64)
    ensures
        w as int == w_dens(r2 as int),
{
    if r2 >= H_RADIUS_SQ {
        0
    } else {
        let u = fsub_fx(H_RADIUS_SQ, r2);
        fdiv_fx(fmul_fx(fmul_fx(u, u), u), POLY6_DIV)
    }
}

/// Evaluate the magnitude of the pressure kernel gradient.
pub fn pressure_kernel_gradient(r2: i64) -> (g: i64)
    ensures
        g as int == w_grad(r2 as int),
{
    if r2 >= H_RADIUS_SQ {
        0
    } else {
        let u = fsub_fx(H_RADIUS_SQ, r2);
        fdiv_fx(fmul_fx(u, u), GRAD_DIV)
    }
}

/// The density kernel never subtracts mass: its value is non-negative.
pub proof fn lemma_w_dens_nonneg(r2: int)
    ensures
        w_dens(r2) >= 0,
{
    if r2 < H_RADIUS_SQ as int {
        let u = fsub(H_RADIUS_SQ as int, r2);
        assert(u > 0);
        lemma_fmul_sq_nonneg(u);
        lemma_fmul_nonneg(fmul(u, u), u);
        lemma_fdiv_nonneg(fmul(fmul(u, u), u), POLY6_DIV as int);
    }
}

} // verus!
