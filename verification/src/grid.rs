//! Uniform bucket grid over the simulation domain.
//!
//! Cell size equals the smoothing radius, so the 3x3 block of cells around a
//! particle's cell always covers its full interaction disk.  Out-of-domain
//! positions are clamped to the nearest edge cell rather than rejected.

use vstd::prelude::*;
use vstd::arithmetic::div_mod::{
    lemma_div_is_ordered, lemma_mod_division_less_than_divisor, lemma_div_pos_is_pos,
};
use crate::fixed::{V2, tdiv, dist2, fmul, fsub, fadd};
use crate::fixed::{
    FX_MAX, FX_MIN, FX_ONE, lemma_fmul_sq_nonneg, lemma_fadd_ge, lemma_quotient_le,
};
use crate::params::{H_RADIUS, H_RADIUS_SQ, GRID_WIDTH, GRID_HEIGHT, N_CELLS};
use crate::particle::{ParticleValue, ParticleIdx, ParticleSystem};
use vstd::pervasive::VecAdditionalExecFns;

verus! {

/// Clamp `v` into `[lo, hi]`.
pub open spec fn clampi(v: int, lo: int, hi: int) -> int {
    if v < lo {
        lo
    } else if v > hi {
        hi
    } else {
        v
    }
}

/// Grid column of an x coordinate: `floor(x / h)` clamped into the grid.
pub open spec fn cell_x_of(x: int) -> int {
    clampi(tdiv(x, H_RADIUS as int), 0, GRID_WIDTH - 1)
}

/// Grid row of a y coordinate: `floor(y / h)` clamped into the grid.
pub open spec fn cell_y_of(y: int) -> int {
    clampi(tdiv(y, H_RADIUS as int), 0, GRID_HEIGHT - 1)
}

/// Linear cell index of a position: `row * GRID_WIDTH + column`.
pub open spec fn cell_of(p: V2) -> int {
    cell_y_of(p.y as int) * GRID_WIDTH + cell_x_of(p.x as int)
}

/// The indices of the particles of `parts` whose position falls in cell `c`,
/// in increasing order.
pub open spec fn cell_list(parts: Seq<ParticleValue>, c: int) -> Seq<usize>
    decreases parts.len(),
{
    if parts.len() == 0 {
        Seq::empty()
    } else {
        let pre = cell_list(parts.drop_last(), c);
        if cell_of(parts.last().pos) == c {
            pre.push((parts.len() - 1) as usize)
        } else {
            pre
        }
    }
}

/// The up-to-9 cells of the 3x3 block around cell `cx, cy` that lie inside
/// the grid, as a linear index.
pub open spec fn cell_if(cx: int, cy: int) -> Seq<usize> {
    if 0 <= cx < GRID_WIDTH && 0 <= cy < GRID_HEIGHT {
        seq![(cy * GRID_WIDTH + cx) as usize]
    } else {
        Seq::empty()
    }
}

/// The valid cells of the 3x3 block centered on cell `c`, column offset
/// varying slowest, in the order the neighbor scan visits them.
pub open spec fn near_cells(c: int) -> Seq<usize> {
    let cx = c % (GRID_WIDTH as int);
    let cy = c / (GRID_WIDTH as int);
    cell_if(cx - 1, cy - 1) + cell_if(cx - 1, cy) + cell_if(cx - 1, cy + 1) + cell_if(cx, cy - 1)
        + cell_if(cx, cy) + cell_if(cx, cy + 1) + cell_if(cx + 1, cy - 1) + cell_if(cx + 1, cy)
        + cell_if(cx + 1, cy + 1)
}

/// The grid matches the particle positions: every cell holds exactly the
/// particles inside it, in increasing index order.
pub open spec fn grid_built(ps: ParticleSystem) -> bool {
    &&& ps.particle_map@.len() == N_CELLS
    &&& forall|c: int|
        0 <= c < N_CELLS ==> (#[trigger] ps.particle_map@[c])@ == cell_list(ps.particles@, c)
}

/// Rebucketing a scratch entry updates its cached cell and nothing else.
pub open spec fn scratch_rebucketed(a: ParticleIdx, b: ParticleIdx, c: int) -> bool {
    &&& b.idx == a.idx
    &&& b.map_idx as int == c
    &&& b.near_particles@ == a.near_particles@
    &&& b.near_dist@ == a.near_dist@
    &&& b.rho == a.rho
    &&& b.press == a.press
    &&& b.accel == a.accel
}

/// Compute the clamped grid cell of a position.
pub fn cell_index(p: V2) -> (c: usize)
    ensures
        c as int == cell_of(p),
        c < N_CELLS,
{
    let qx = tdiv_i64(p.x, H_RADIUS);
    let cx: usize = if qx < 0 {
        0
    } else if qx >= GRID_WIDTH as i64 {
        GRID_WIDTH - 1
    } else {
        qx as usize
    };
    let qy = tdiv_i64(p.y, H_RADIUS);
    let cy: usize = if qy < 0 {
        0
    } else if qy >= GRID_HEIGHT as i64 {
        GRID_HEIGHT - 1
    } else {
        qy as usize
    };
    cy * GRID_WIDTH + cx
}

/// Quotient of two machine words rounded toward zero.
fn tdiv_i64(a: i64, b: i64) -> (r: i64)
    requires
        b > 0,
    ensures
        r as int == tdiv(a as int, b as int),
{
    if a >= 0 {
        let q = (a as u64) / (b as u64);
        proof {
            lemma_quotient_le(a as int, b as int);
        }
        q as i64
    } else {
        let n: u64 = if a == i64::MIN {
            9223372036854775808u64
        } else {
            (-a) as u64
        };
        let q = n / (b as u64);
        proof {
            lemma_quotient_le(n as int, b as int);
        }
        if q == 9223372036854775808u64 {
            i64::MIN
        } else {
            -(q as i64)
        }
    }
}

/// Collect the valid cells of the 3x3 block around `idx` into `near_idx`.
pub fn near_grid(idx: usize, near_idx: &mut Vec<usize>)
    requires
        idx < N_CELLS,
    ensures
        final(near_idx)@ == near_cells(idx as int),
        forall|t: int| 0 <= t < final(near_idx)@.len() ==> #[trigger] final(near_idx)@[t] < N_CELLS,
{
    near_idx.clear();

    let x = idx % GRID_WIDTH;
    let y = idx / GRID_WIDTH;
    proof {
        lemma_mod_division_less_than_divisor(idx as int, GRID_WIDTH as int);
        lemma_div_is_ordered(idx as int, N_CELLS as int - 1, GRID_WIDTH as int);
        lemma_div_pos_is_pos(idx as int, GRID_WIDTH as int);
    }

    if x >= 1 && y >= 1 {
        near_idx.push((y - 1) * GRID_WIDTH + (x - 1));
    }
    if x >= 1 {
        near_idx.push(y * GRID_WIDTH + (x - 1));
    }
    if x >= 1 && y + 1 < GRID_HEIGHT {
        near_idx.push((y + 1) * GRID_WIDTH + (x - 1));
    }
    if y >= 1 {
        near_idx.push((y - 1) * GRID_WIDTH + x);
    }
    near_idx.push(y * GRID_WIDTH + x);
    if y + 1 < GRID_HEIGHT {
        near_idx.push((y + 1) * GRID_WIDTH + x);
    }
    if x + 1 < GRID_WIDTH && y >= 1 {
        near_idx.push((y - 1) * GRID_WIDTH + (x + 1));
    }
    if x + 1 < GRID_WIDTH {
        near_idx.push(y * GRID_WIDTH + (x + 1));
    }
    if x + 1 < GRID_WIDTH && y + 1 < GRID_HEIGHT {
        near_idx.push((y + 1) * GRID_WIDTH + (x + 1));
    }

    proof {
        assert(near_idx@ =~= near_cells(idx as int));
    }
}

/// Clear every cell, rebucket every particle into the cell its position
/// falls in, and record that cell on the particle's scratch entry.
pub fn calculate_map(ps: &mut ParticleSystem, idxs: &mut Vec<ParticleIdx>)
    requires
        old(idxs)@.len() == old(ps).particles@.len(),
    ensures
        final(ps).particles@ == old(ps).particles@,
        grid_built(*final(ps)),
        final(idxs)@.len() == old(idxs)@.len(),
        forall|k: int|
            0 <= k < final(idxs)@.len() ==> scratch_rebucketed(
                old(idxs)@[k],
                #[trigger] final(idxs)@[k],
                cell_of(old(ps).particles@[k].pos),
            ),
{
    let n = ps.particles.len();
    let ghost parts = ps.particles@;

    let mut map: Vec<Vec<usize>> = Vec::new();
    let mut c: usize = 0;
    while c < N_CELLS
        invariant
            map@.len() == c,
            c <= N_CELLS,
            forall|d: int| 0 <= d < c ==> (#[trigger] map@[d])@.len() == 0,
        decreases N_CELLS - c,
    {
        map.push(Vec::new());
        c += 1;
    }

    let mut i: usize = 0;
    while i < n
        invariant
            ps.particles@ == parts,
            n == parts.len(),
            i <= n,
            map@.len() == N_CELLS,
            forall|d: int|
                0 <= d < N_CELLS ==> (#[trigger] map@[d])@ == cell_list(parts.take(i as int), d),
        decreases n - i,
    {
        let ghost map0 = map@;
        let c = cell_index(ps.particles[i].pos);
        let mut bucket: Vec<usize> = Vec::new();
        map.set_and_swap(c, &mut bucket);
        bucket.push(i);
        map.set_and_swap(c, &mut bucket);
        proof {
            assert(parts.take(i as int + 1).drop_last() =~= parts.take(i as int));
            assert forall|d: int| 0 <= d < N_CELLS implies (#[trigger] map@[d])@ == cell_list(
                parts.take(i as int + 1),
                d,
            ) by {
                if d == c as int {
                    assert(map@[d]@ =~= map0[d]@.push(i));
                } else {
                    assert(map@[d] == map0[d]);
                }
            }
        }
        i += 1;
    }
    proof {
        assert(parts.take(n as int) =~= parts);
    }
    ps.particle_map = map;

    let mut out: Vec<ParticleIdx> = Vec::new();
    let mut k: usize = 0;
    while k < n
        invariant
            ps.particles@ == parts,
            n == parts.len(),
            idxs@.len() == n,
            k <= n,
            out@.len() == k,
            forall|kk: int|
                0 <= kk < k ==> scratch_rebucketed(
                    idxs@[kk],
                    #[trigger] out@[kk],
                    cell_of(parts[kk].pos),
                ),
        decreases n - k,
    {
        let c = cell_index(ps.particles[k].pos);
        let e = &idxs[k];
        out.push(ParticleIdx {
            idx: e.idx,
            map_idx: c,
            near_particles: crate::particle::copy_usize_vec(&e.near_particles),
            near_dist: crate::particle::copy_i64_vec(&e.near_dist),
            rho: e.rho,
            press: e.press,
            accel: e.accel,
        });
        k += 1;
    }
    *idxs = out;
}

/// Grid rebuild is idempotent: two grids built over equal particle
/// positions hold identical cell contents.
pub proof fn lemma_rebuild_idempotent(ps1: ParticleSystem, ps2: ParticleSystem)
    requires
        grid_built(ps1),
        grid_built(ps2),
        ps1.particles@ == ps2.particles@,
    ensures
        ps1.particle_map@.len() == ps2.particle_map@.len(),
        forall|c: int|
            0 <= c < ps1.particle_map@.len() ==> (#[trigger] ps1.particle_map@[c])@
                == ps2.particle_map@[c]@,
{
}

/// Clamping erases the difference between rounding toward zero and floor
/// division: both land on the same cell.
proof fn lemma_tdiv_clamped(x: int, hi: int)
    requires
        hi >= 0,
    ensures
        clampi(tdiv(x, H_RADIUS as int), 0, hi) == clampi(x / (H_RADIUS as int), 0, hi),
{
    let h = H_RADIUS as int;
    if x < 0 {
        lemma_div_pos_is_pos(-x, h);
        lemma_div_is_ordered(x, 0, h);
        assert(0int / h == 0) by {
            vstd::arithmetic::div_mod::lemma_div_of0(h);
        }
    }
}

/// Floor division is 1-Lipschitz over a gap below the cell size.
proof fn lemma_floor_lipschitz(u: int, v: int)
    requires
        u <= v,
        v - u < H_RADIUS,
    ensures
        u / (H_RADIUS as int) <= v / (H_RADIUS as int) <= u / (H_RADIUS as int) + 1,
{
    let h = H_RADIUS as int;
    lemma_div_is_ordered(u, v, h);
    lemma_div_is_ordered(v, u + h, h);
    vstd::arithmetic::div_mod::lemma_div_plus_one(u, h);
}

/// A clipped coordinate difference whose square stays below the squared
/// radius is itself below the radius in magnitude.
proof fn lemma_sq_below_h2(a: int)
    requires
        FX_MIN <= a <= FX_MAX,
        fmul(a, a) < H_RADIUS_SQ as int,
    ensures
        -(H_RADIUS as int) < a < H_RADIUS as int,
{
    let h = H_RADIUS as int;
    let s = FX_ONE as int;
    if a >= h || a <= -h {
        assert(a * a >= h * h) by (nonlinear_arith)
            requires
                a >= h || a <= -h,
                h > 0,
        {}
        assert(h * h == H_RADIUS_SQ as int * s);
        lemma_div_is_ordered(H_RADIUS_SQ as int * s, a * a, s);
        assert((s * (H_RADIUS_SQ as int)) / s == H_RADIUS_SQ as int) by {
            vstd::arithmetic::div_mod::lemma_div_multiples_vanish(H_RADIUS_SQ as int, s);
        }
        assert(s * (H_RADIUS_SQ as int) == H_RADIUS_SQ as int * s) by (nonlinear_arith) {}
        assert(tdiv(a * a, s) >= H_RADIUS_SQ as int);
        assert(false);
    }
}

/// Two particles strictly within the smoothing radius of each other land in
/// the same or adjacent grid cells, on both axes.
pub proof fn lemma_cells_close(p: V2, q: V2)
    requires
        dist2(p, q) < H_RADIUS_SQ as int,
    ensures
        -1 <= cell_x_of(p.x as int) - cell_x_of(q.x as int) <= 1,
        -1 <= cell_y_of(p.y as int) - cell_y_of(q.y as int) <= 1,
{
    let h = H_RADIUS as int;
    let dx = fsub(p.x as int, q.x as int);
    let dy = fsub(p.y as int, q.y as int);
    let sqx = fmul(dx, dx);
    let sqy = fmul(dy, dy);
    lemma_fmul_sq_nonneg(dx);
    lemma_fmul_sq_nonneg(dy);
    lemma_fadd_ge(sqx, sqy);
    lemma_fadd_ge(sqy, sqx);
    assert(fadd(sqx, sqy) == fadd(sqy, sqx));
    lemma_sq_below_h2(dx);
    lemma_sq_below_h2(dy);

    // the clipped difference below the radius bounds the true difference
    assert(-h < (p.x as int) - (q.x as int) < h);
    assert(-h < (p.y as int) - (q.y as int) < h);

    lemma_axis_close(p.x as int, q.x as int, GRID_WIDTH - 1);
    lemma_axis_close(p.y as int, q.y as int, GRID_HEIGHT - 1);
}

/// One axis of the adjacency argument: coordinates less than the cell size
/// apart map to clamped cells at most one apart.
proof fn lemma_axis_close(u: int, v: int, hi: int)
    requires
        hi >= 0,
        -(H_RADIUS as int) < u - v < H_RADIUS as int,
    ensures
        -1 <= clampi(tdiv(u, H_RADIUS as int), 0, hi) - clampi(tdiv(v, H_RADIUS as int), 0, hi)
            <= 1,
{
    let h = H_RADIUS as int;
    lemma_tdiv_clamped(u, hi);
    lemma_tdiv_clamped(v, hi);
    if u <= v {
        lemma_floor_lipschitz(u, v);
    } else {
        lemma_floor_lipschitz(v, u);
    }
}

/// The linear cell index splits back into its column and row, and stays in
/// range.
pub proof fn lemma_cell_decompose(p: V2)
    ensures
        0 <= cell_of(p) < N_CELLS,
        cell_of(p) % (GRID_WIDTH as int) == cell_x_of(p.x as int),
        cell_of(p) / (GRID_WIDTH as int) == cell_y_of(p.y as int),
{
    let cx = cell_x_of(p.x as int);
    let cy = cell_y_of(p.y as int);
    assert(0 <= cx < GRID_WIDTH);
    assert(0 <= cy < GRID_HEIGHT);
    vstd::arithmetic::div_mod::lemma_fundamental_div_mod_converse_mod(
        cy * GRID_WIDTH + cx,
        GRID_WIDTH as int,
        cy,
        cx,
    );
    vstd::arithmetic::div_mod::lemma_fundamental_div_mod_converse_div(
        cy * GRID_WIDTH + cx,
        GRID_WIDTH as int,
        cy,
        cx,
    );
}

/// A particle's index is listed in a cell's bucket exactly when its
/// position falls in that cell.
pub proof fn lemma_cell_list_mem(parts: Seq<ParticleValue>, c: int, i: int)
    requires
        parts.len() <= usize::MAX,
        0 <= i < parts.len(),
    ensures
        cell_list(parts, c).contains(i as usize) <==> cell_of(parts[i].pos) == c,
    decreases parts.len(),
{
    let s = cell_list(parts, c);
    let pre = cell_list(parts.drop_last(), c);
    if i < parts.len() - 1 {
        lemma_cell_list_mem(parts.drop_last(), c, i);
        assert(parts.drop_last()[i] == parts[i]);
        if cell_of(parts.last().pos) == c {
            assert(s == pre.push(((parts.len() - 1) as usize)));
            if pre.contains(i as usize) {
                let t = choose|t: int| 0 <= t < pre.len() && pre[t] == i as usize;
                assert(s[t] == i as usize);
            }
            if s.contains(i as usize) {
                let t = choose|t: int| 0 <= t < s.len() && s[t] == i as usize;
                assert(t < pre.len());
                assert(pre[t] == i as usize);
            }
        }
    } else {
        assert(i == parts.len() - 1);
        if cell_of(parts[i].pos) == c {
            assert(s == pre.push((i as usize)));
            assert(s[s.len() - 1] == i as usize);
        } else {
            assert(s == pre);
            if s.contains(i as usize) {
                let t = choose|t: int| 0 <= t < s.len() && s[t] == i as usize;
                crate::density::lemma_cell_list_entries(parts.drop_last(), c);
                assert(pre[t] < parts.drop_last().len());
                assert(false);
            }
        }
    }
}

/// An element of either part is an element of the concatenation.
proof fn lemma_contains_concat(a: Seq<usize>, b: Seq<usize>, x: usize)
    requires
        a.contains(x) || b.contains(x),
    ensures
        (a + b).contains(x),
{
    if a.contains(x) {
        let t = choose|t: int| 0 <= t < a.len() && a[t] == x;
        assert((a + b)[t] == x);
    } else {
        let t = choose|t: int| 0 <= t < b.len() && b[t] == x;
        assert((a + b)[a.len() + t] == x);
    }
}

/// The neighbor scan never lists the same cell twice.
pub proof fn lemma_near_cells_no_dup(c: int)
    requires
        0 <= c < N_CELLS,
    ensures
        forall|t1: int, t2: int|
            #![trigger near_cells(c)[t1], near_cells(c)[t2]]
            0 <= t1 < t2 < near_cells(c).len() ==> near_cells(c)[t1] != near_cells(c)[t2],
{
    let gw = GRID_WIDTH as int;
    let cx = c % gw;
    let cy = c / gw;
    lemma_mod_division_less_than_divisor(c, gw);
    lemma_div_pos_is_pos(c, gw);
    lemma_div_is_ordered(c, N_CELLS as int - 1, gw);
    let s = near_cells(c);
    assert forall|t1: int, t2: int| 0 <= t1 < t2 < s.len() implies s[t1] != s[t2] by {
        assert(s == cell_if(cx - 1, cy - 1) + cell_if(cx - 1, cy) + cell_if(cx - 1, cy + 1)
            + cell_if(cx, cy - 1) + cell_if(cx, cy) + cell_if(cx, cy + 1) + cell_if(
            cx + 1,
            cy - 1,
        ) + cell_if(cx + 1, cy) + cell_if(cx + 1, cy + 1));
    }
}

/// Every cell of the grid adjacent (or equal) to cell `c` is listed among
/// the near cells of `c`.
pub proof fn lemma_near_cells_mem(c: int, cx2: int, cy2: int)
    requires
        0 <= c < N_CELLS,
        0 <= cx2 < GRID_WIDTH,
        0 <= cy2 < GRID_HEIGHT,
        -1 <= cx2 - c % (GRID_WIDTH as int) <= 1,
        -1 <= cy2 - c / (GRID_WIDTH as int) <= 1,
    ensures
        near_cells(c).contains(((cy2 * GRID_WIDTH + cx2) as usize)),
{
    let cx = c % (GRID_WIDTH as int);
    let cy = c / (GRID_WIDTH as int);
    lemma_mod_division_less_than_divisor(c, GRID_WIDTH as int);
    lemma_div_pos_is_pos(c, GRID_WIDTH as int);
    lemma_div_is_ordered(c, N_CELLS as int - 1, GRID_WIDTH as int);
    let target = ((cy2 * GRID_WIDTH + cx2) as usize);
    assert(cell_if(cx2, cy2) == seq![target]);
    assert(cell_if(cx2, cy2).contains(target)) by {
        assert(cell_if(cx2, cy2)[0] == target);
    }

    let b1 = cell_if(cx - 1, cy - 1);
    let b2 = cell_if(cx - 1, cy);
    let b3 = cell_if(cx - 1, cy + 1);
    let b4 = cell_if(cx, cy - 1);
    let b5 = cell_if(cx, cy);
    let b6 = cell_if(cx, cy + 1);
    let b7 = cell_if(cx + 1, cy - 1);
    let b8 = cell_if(cx + 1, cy);
    let b9 = cell_if(cx + 1, cy + 1);
    let s2 = b1 + b2;
    let s3 = s2 + b3;
    let s4 = s3 + b4;
    let s5 = s4 + b5;
    let s6 = s5 + b6;
    let s7 = s6 + b7;
    let s8 = s7 + b8;
    let s9 = s8 + b9;
    assert(near_cells(c) == s9);

    assert(b1.contains(target) || b2.contains(target) || b3.contains(target) || b4.contains(
        target,
    ) || b5.contains(target) || b6.contains(target) || b7.contains(target) || b8.contains(target)
        || b9.contains(target));

    if b1.contains(target) || b2.contains(target) {
        lemma_contains_concat(b1, b2, target);
    }
    if s2.contains(target) || b3.contains(target) {
        lemma_contains_concat(s2, b3, target);
    }
    if s3.contains(target) || b4.contains(target) {
        lemma_contains_concat(s3, b4, target);
    }
    if s4.contains(target) || b5.contains(target) {
        lemma_contains_concat(s4, b5, target);
    }
    if s5.contains(target) || b6.contains(target) {
        lemma_contains_concat(s5, b6, target);
    }
    if s6.contains(target) || b7.contains(target) {
        lemma_contains_concat(s6, b7, target);
    }
    if s7.contains(target) || b8.contains(target) {
        lemma_contains_concat(s7, b8, target);
    }
    if s8.contains(target) || b9.contains(target) {
        lemma_contains_concat(s8, b9, target);
    }
}

} // verus!
