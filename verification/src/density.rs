//! Density and pressure pass.
//!
//! For every particle the pass scans its own grid cell and the adjacent
//! cells, records every particle strictly inside the smoothing radius (self
//! included) together with the squared distance, accumulates density from the
//! density kernel seeded with a small positive floor, and derives pressure
//! through the linear equation of state.

use vstd::prelude::*;
use crate::fixed::{
    V2, dist2, dist2_fx, fadd, fsub, fmul, fadd_fx, fsub_fx, fmul_fx, FX_MAX,
    lemma_fmul_nonneg, lemma_fadd_ge,
};
use crate::kernel::{w_dens, density_kernel, lemma_w_dens_nonneg};
use crate::params::{H_RADIUS_SQ, P_MASS, GAS_K, RHO_INIT, EPSILON, N_CELLS};
use crate::grid::{cell_of, cell_list, near_cells, near_grid, grid_built};
use crate::particle::{ParticleValue, ParticleIdx, ParticleSystem};

verus! {

/// The entries of `lst` whose particle lies strictly within the smoothing
/// radius of `pos`, in scan order.
pub open spec fn sel_idx(parts: Seq<ParticleValue>, lst: Seq<usize>, pos: V2) -> Seq<usize>
    decreases lst.len(),
{
    if lst.len() == 0 {
        Seq::empty()
    } else {
        let pre = sel_idx(parts, lst.drop_last(), pos);
        let j = lst.last();
        if dist2(parts[j as int].pos, pos) < H_RADIUS_SQ as int {
            pre.push(j)
        } else {
            pre
        }
    }
}

/// The squared distances matching [`sel_idx`], entry for entry.
pub open spec fn sel_d2(parts: Seq<ParticleValue>, lst: Seq<usize>, pos: V2) -> Seq<i64>
    decreases lst.len(),
{
    if lst.len() == 0 {
        Seq::empty()
    } else {
        let pre = sel_d2(parts, lst.drop_last(), pos);
        let j = lst.last();
        if dist2(parts[j as int].pos, pos) < H_RADIUS_SQ as int {
            pre.push(dist2(parts[j as int].pos, pos) as i64)
        } else {
            pre
        }
    }
}

/// The neighbors found by scanning the given cells in order: for each cell,
/// the in-radius entries of the particles bucketed in it.
pub open spec fn gather_idx(parts: Seq<ParticleValue>, cells: Seq<usize>, pos: V2) -> Seq<usize>
    decreases cells.len(),
{
    if cells.len() == 0 {
        Seq::empty()
    } else {
        gather_idx(parts, cells.drop_last(), pos) + sel_idx(
            parts,
            cell_list(parts, cells.last() as int),
            pos,
        )
    }
}

/// The squared distances matching [`gather_idx`], entry for entry.
pub open spec fn gather_d2(parts: Seq<ParticleValue>, cells: Seq<usize>, pos: V2) -> Seq<i64>
    decreases cells.len(),
{
    if cells.len() == 0 {
        Seq::empty()
    } else {
        gather_d2(parts, cells.drop_last(), pos) + sel_d2(
            parts,
            cell_list(parts, cells.last() as int),
            pos,
        )
    }
}

/// Neighbor list of particle `i`: the particles within the smoothing radius
/// of it found in the 3x3 cell block around its cell.
pub open spec fn neighbors_of(parts: Seq<ParticleValue>, i: int) -> Seq<usize> {
    gather_idx(parts, near_cells(cell_of(parts[i].pos)), parts[i].pos)
}

/// Squared distances to the neighbors of particle `i`, entry for entry.
pub open spec fn neighbor_dists_of(parts: Seq<ParticleValue>, i: int) -> Seq<i64> {
    gather_d2(parts, near_cells(cell_of(parts[i].pos)), parts[i].pos)
}

/// Density accumulated over recorded squared distances: the positive floor
/// plus one mass-weighted kernel term per neighbor.
pub open spec fn rho_sum(d2s: Seq<i64>) -> int
    decreases d2s.len(),
{
    if d2s.len() == 0 {
        EPSILON as int
    } else {
        fadd(rho_sum(d2s.drop_last()), fmul(P_MASS as int, w_dens(d2s.last() as int)))
    }
}

/// Density of particle `i` as the density pass computes it.
pub open spec fn rho_of(parts: Seq<ParticleValue>, i: int) -> int {
    rho_sum(neighbor_dists_of(parts, i))
}

/// Linear equation of state: pressure from deviation off the rest density.
pub open spec fn press_of_rho(rho: int) -> int {
    fmul(GAS_K as int, fsub(rho, RHO_INIT as int))
}

/// The density never falls below the positive floor.
pub proof fn lemma_rho_sum_at_least_eps(d2s: Seq<i64>)
    ensures
        rho_sum(d2s) >= EPSILON as int,
        rho_sum(d2s) <= FX_MAX as int,
    decreases d2s.len(),
{
    if d2s.len() > 0 {
        lemma_rho_sum_at_least_eps(d2s.drop_last());
        lemma_w_dens_nonneg(d2s.last() as int);
        lemma_fmul_nonneg(P_MASS as int, w_dens(d2s.last() as int));
        lemma_fadd_ge(rho_sum(d2s.drop_last()), fmul(P_MASS as int, w_dens(d2s.last() as int)));
    }
}

/// Every neighbor index comes out of a cell list, so it indexes a particle.
pub proof fn lemma_cell_list_entries(parts: Seq<ParticleValue>, c: int)
    requires
        parts.len() <= usize::MAX,
    ensures
        forall|t: int|
            0 <= t < cell_list(parts, c).len() ==> #[trigger] cell_list(parts, c)[t] < parts.len(),
        forall|t1: int, t2: int|
            #![trigger cell_list(parts, c)[t1], cell_list(parts, c)[t2]]
            0 <= t1 < t2 < cell_list(parts, c).len() ==> cell_list(parts, c)[t1] < cell_list(
                parts,
                c,
            )[t2],
    decreases parts.len(),
{
    if parts.len() > 0 {
        lemma_cell_list_entries(parts.drop_last(), c);
        let pre = cell_list(parts.drop_last(), c);
        let s = cell_list(parts, c);
        if cell_of(parts.last().pos) == c {
            assert(forall|t: int| 0 <= t < pre.len() ==> s[t] == #[trigger] pre[t]);
            assert(s[s.len() - 1] == ((parts.len() - 1) as usize));
            assert forall|t1: int, t2: int| 0 <= t1 < t2 < s.len() implies s[t1] < s[t2] by {
                if t2 == s.len() - 1 {
                    assert(s[t1] == pre[t1]);
                    assert(pre[t1] < parts.drop_last().len());
                } else {
                    assert(s[t1] == pre[t1]);
                    assert(s[t2] == pre[t2]);
                    assert(pre[t1] < pre[t2]);
                }
            }
        } else {
            assert(s == pre);
        }
    }
}

/// Entries selected from a list stay entries of that list's range.
pub proof fn lemma_sel_entries(parts: Seq<ParticleValue>, lst: Seq<usize>, pos: V2, n: int)
    requires
        forall|t: int| 0 <= t < lst.len() ==> #[trigger] lst[t] < n,
    ensures
        forall|t: int|
            0 <= t < sel_idx(parts, lst, pos).len() ==> #[trigger] sel_idx(parts, lst, pos)[t] < n,
        sel_idx(parts, lst, pos).len() == sel_d2(parts, lst, pos).len(),
    decreases lst.len(),
{
    if lst.len() > 0 {
        assert(forall|t: int|
            0 <= t < lst.drop_last().len() ==> #[trigger] lst.drop_last()[t] < n);
        lemma_sel_entries(parts, lst.drop_last(), pos, n);
    }
}

/// Gathered neighbor indices index particles, and the distance list runs
/// parallel to the index list.
pub proof fn lemma_gather_entries(parts: Seq<ParticleValue>, cells: Seq<usize>, pos: V2)
    requires
        parts.len() <= usize::MAX,
    ensures
        forall|t: int|
            0 <= t < gather_idx(parts, cells, pos).len() ==> #[trigger] gather_idx(
                parts,
                cells,
                pos,
            )[t] < parts.len(),
        gather_idx(parts, cells, pos).len() == gather_d2(parts, cells, pos).len(),
    decreases cells.len(),
{
    if cells.len() > 0 {
        lemma_gather_entries(parts, cells.drop_last(), pos);
        let lst = cell_list(parts, cells.last() as int);
        lemma_cell_list_entries(parts, cells.last() as int);
        lemma_sel_entries(parts, lst, pos, parts.len() as int);
    }
}

/// A listed particle strictly within the radius survives the selection.
proof fn lemma_sel_contains(parts: Seq<ParticleValue>, lst: Seq<usize>, pos: V2, j: usize)
    requires
        lst.contains(j),
        dist2(parts[j as int].pos, pos) < H_RADIUS_SQ as int,
    ensures
        sel_idx(parts, lst, pos).contains(j),
    decreases lst.len(),
{
    let s = sel_idx(parts, lst, pos);
    let pre = sel_idx(parts, lst.drop_last(), pos);
    if lst.last() == j {
        assert(s == pre.push(j));
        assert(s[s.len() - 1] == j);
    } else {
        let t = choose|t: int| 0 <= t < lst.len() && lst[t] == j;
        assert(t < lst.len() - 1);
        assert(lst.drop_last()[t] == j);
        assert(lst.drop_last().contains(j));
        lemma_sel_contains(parts, lst.drop_last(), pos, j);
        let tp = choose|tp: int| 0 <= tp < pre.len() && pre[tp] == j;
        if dist2(parts[lst.last() as int].pos, pos) < H_RADIUS_SQ as int {
            assert(s == pre.push(lst.last()));
            assert(s[tp] == j);
        } else {
            assert(s == pre);
        }
    }
}

/// A particle bucketed in a scanned cell and strictly within the radius is
/// gathered as a neighbor.
proof fn lemma_gather_contains(
    parts: Seq<ParticleValue>,
    cells: Seq<usize>,
    pos: V2,
    c: usize,
    j: usize,
)
    requires
        cells.contains(c),
        cell_list(parts, c as int).contains(j),
        dist2(parts[j as int].pos, pos) < H_RADIUS_SQ as int,
    ensures
        gather_idx(parts, cells, pos).contains(j),
    decreases cells.len(),
{
    let s = gather_idx(parts, cells, pos);
    let left = gather_idx(parts, cells.drop_last(), pos);
    let right = sel_idx(parts, cell_list(parts, cells.last() as int), pos);
    if cells.last() == c {
        lemma_sel_contains(parts, cell_list(parts, c as int), pos, j);
        let t = choose|t: int| 0 <= t < right.len() && right[t] == j;
        assert(s[left.len() + t] == j);
    } else {
        let t = choose|t: int| 0 <= t < cells.len() && cells[t] == c;
        assert(t < cells.len() - 1);
        assert(cells.drop_last()[t] == c);
        assert(cells.drop_last().contains(c));
        lemma_gather_contains(parts, cells.drop_last(), pos, c, j);
        let tp = choose|tp: int| 0 <= tp < left.len() && left[tp] == j;
        assert(s[tp] == j);
    }
}

/// Symmetry of the neighbor relation: two distinct particles strictly
/// within the smoothing radius of each other each appear in the other's
/// neighbor list after the density pass.
pub proof fn lemma_neighbor_symmetry(parts: Seq<ParticleValue>, i: int, j: int)
    requires
        parts.len() <= usize::MAX,
        0 <= i < parts.len(),
        0 <= j < parts.len(),
        i != j,
        dist2(parts[i].pos, parts[j].pos) < H_RADIUS_SQ as int,
    ensures
        neighbors_of(parts, i).contains(j as usize),
        neighbors_of(parts, j).contains(i as usize),
{
    crate::fixed::lemma_dist2_symmetric(parts[i].pos, parts[j].pos);
    lemma_neighbor_one_direction(parts, i, j);
    lemma_neighbor_one_direction(parts, j, i);
}

/// One direction of the symmetry argument: the scanned 3x3 block around a
/// particle's cell covers the cell of every particle within the radius.
proof fn lemma_neighbor_one_direction(parts: Seq<ParticleValue>, i: int, j: int)
    requires
        parts.len() <= usize::MAX,
        0 <= i < parts.len(),
        0 <= j < parts.len(),
        dist2(parts[j].pos, parts[i].pos) < H_RADIUS_SQ as int,
    ensures
        neighbors_of(parts, i).contains(j as usize),
{
    let pi = parts[i].pos;
    let pj = parts[j].pos;
    let ci = cell_of(pi);
    let cj = cell_of(pj);
    crate::grid::lemma_cell_decompose(pi);
    crate::grid::lemma_cell_decompose(pj);
    crate::fixed::lemma_dist2_symmetric(pi, pj);
    crate::grid::lemma_cells_close(pi, pj);
    crate::grid::lemma_cell_list_mem(parts, cj, j);
    crate::grid::lemma_near_cells_mem(
        ci,
        crate::grid::cell_x_of(pj.x as int),
        crate::grid::cell_y_of(pj.y as int),
    );
    lemma_gather_contains(parts, near_cells(ci), pi, cj as usize, j as usize);
}

/// Under isolation the selection keeps at most the particle itself: a list
/// of distinct in-range indices yields the singleton of `i` exactly when it
/// listed `i`.
proof fn lemma_sel_isolated(parts: Seq<ParticleValue>, lst: Seq<usize>, i: int)
    requires
        parts.len() <= usize::MAX,
        0 <= i < parts.len(),
        forall|t: int| 0 <= t < lst.len() ==> #[trigger] lst[t] < parts.len(),
        forall|t1: int, t2: int|
            #![trigger lst[t1], lst[t2]]
            0 <= t1 < t2 < lst.len() ==> lst[t1] < lst[t2],
        forall|jj: int|
            0 <= jj < parts.len() && jj != i ==> dist2(
                (#[trigger] parts[jj]).pos,
                parts[i].pos,
            ) >= H_RADIUS_SQ as int,
    ensures
        sel_idx(parts, lst, parts[i].pos) == if lst.contains(i as usize) {
            seq![i as usize]
        } else {
            Seq::<usize>::empty()
        },
        sel_d2(parts, lst, parts[i].pos) == if lst.contains(i as usize) {
            seq![0i64]
        } else {
            Seq::<i64>::empty()
        },
    decreases lst.len(),
{
    crate::fixed::lemma_dist2_self(parts[i].pos);
    if lst.len() > 0 {
        let pre = lst.drop_last();
        assert(forall|t: int| 0 <= t < pre.len() ==> #[trigger] pre[t] < parts.len());
        assert(forall|t1: int, t2: int|
            #![trigger pre[t1], pre[t2]]
            0 <= t1 < t2 < pre.len() ==> pre[t1] < pre[t2]);
        lemma_sel_isolated(parts, pre, i);
        let j = lst.last();
        if j == i as usize {
            // the prefix is strictly below `i`, so it cannot list `i` again
            assert(!pre.contains(i as usize)) by {
                if pre.contains(i as usize) {
                    let t = choose|t: int| 0 <= t < pre.len() && pre[t] == i as usize;
                    assert(lst[t] == i as usize);
                    assert(lst[t] < lst[lst.len() - 1]);
                }
            }
            assert(sel_idx(parts, lst, parts[i].pos) =~= seq![i as usize]);
            assert(sel_d2(parts, lst, parts[i].pos) =~= seq![0i64]);
            assert(lst.contains(i as usize)) by {
                assert(lst[lst.len() - 1] == i as usize);
            }
        } else {
            assert(dist2(parts[j as int].pos, parts[i].pos) >= H_RADIUS_SQ as int);
            assert(lst.contains(i as usize) == pre.contains(i as usize)) by {
                if lst.contains(i as usize) {
                    let t = choose|t: int| 0 <= t < lst.len() && lst[t] == i as usize;
                    assert(t < lst.len() - 1);
                    assert(pre[t] == i as usize);
                }
                if pre.contains(i as usize) {
                    let t = choose|t: int| 0 <= t < pre.len() && pre[t] == i as usize;
                    assert(lst[t] == i as usize);
                }
            }
        }
    }
}

/// Under isolation the whole scan gathers exactly the particle itself, once,
/// as long as no cell is scanned twice.
proof fn lemma_gather_isolated(parts: Seq<ParticleValue>, cells: Seq<usize>, i: int)
    requires
        parts.len() <= usize::MAX,
        0 <= i < parts.len(),
        forall|t1: int, t2: int|
            #![trigger cells[t1], cells[t2]]
            0 <= t1 < t2 < cells.len() ==> cells[t1] != cells[t2],
        forall|jj: int|
            0 <= jj < parts.len() && jj != i ==> dist2(
                (#[trigger] parts[jj]).pos,
                parts[i].pos,
            ) >= H_RADIUS_SQ as int,
    ensures
        gather_idx(parts, cells, parts[i].pos) == if cells.contains(
            (cell_of(parts[i].pos) as usize),
        ) {
            seq![i as usize]
        } else {
            Seq::<usize>::empty()
        },
        gather_d2(parts, cells, parts[i].pos) == if cells.contains(
            (cell_of(parts[i].pos) as usize),
        ) {
            seq![0i64]
        } else {
            Seq::<i64>::empty()
        },
    decreases cells.len(),
{
    crate::grid::lemma_cell_decompose(parts[i].pos);
    let ci = (cell_of(parts[i].pos) as usize);
    if cells.len() > 0 {
        let pre = cells.drop_last();
        assert(forall|t1: int, t2: int|
            #![trigger pre[t1], pre[t2]]
            0 <= t1 < t2 < pre.len() ==> pre[t1] != pre[t2]);
        lemma_gather_isolated(parts, pre, i);
        let c = cells.last();
        let lst = cell_list(parts, c as int);
        lemma_cell_list_entries(parts, c as int);
        lemma_sel_isolated(parts, lst, i);
        crate::grid::lemma_cell_list_mem(parts, c as int, i);
        if c == ci {
            // a distinct scan order lists the center cell only once
            assert(!pre.contains(ci)) by {
                if pre.contains(ci) {
                    let t = choose|t: int| 0 <= t < pre.len() && pre[t] == ci;
                    assert(cells[t] == ci);
                    assert(cells[t] != cells[cells.len() - 1]);
                }
            }
            assert(lst.contains(i as usize));
            assert(gather_idx(parts, cells, parts[i].pos) =~= seq![i as usize]);
            assert(gather_d2(parts, cells, parts[i].pos) =~= seq![0i64]);
            assert(cells.contains(ci)) by {
                assert(cells[cells.len() - 1] == ci);
            }
        } else {
            assert(!lst.contains(i as usize));
            assert(gather_idx(parts, cells, parts[i].pos) =~= gather_idx(
                parts,
                pre,
                parts[i].pos,
            ));
            assert(gather_d2(parts, cells, parts[i].pos) =~= gather_d2(parts, pre, parts[i].pos));
            assert(cells.contains(ci) == pre.contains(ci)) by {
                if cells.contains(ci) {
                    let t = choose|t: int| 0 <= t < cells.len() && cells[t] == ci;
                    assert(t < cells.len() - 1);
                    assert(pre[t] == ci);
                }
                if pre.contains(ci) {
                    let t = choose|t: int| 0 <= t < pre.len() && pre[t] == ci;
                    assert(cells[t] == ci);
                }
            }
        }
    }
}

/// An isolated particle's neighbor list after the density pass holds the
/// particle itself and nothing else, at distance zero, so its density is
/// exactly the floor plus its own kernel contribution.
pub proof fn lemma_isolated_particle(parts: Seq<ParticleValue>, i: int)
    requires
        parts.len() <= usize::MAX,
        0 <= i < parts.len(),
        forall|jj: int|
            0 <= jj < parts.len() && jj != i ==> dist2(
                (#[trigger] parts[jj]).pos,
                parts[i].pos,
            ) >= H_RADIUS_SQ as int,
    ensures
        neighbors_of(parts, i) == seq![i as usize],
        neighbor_dists_of(parts, i) == seq![0i64],
        rho_of(parts, i) == fadd(EPSILON as int, fmul(P_MASS as int, w_dens(0))),
        press_of_rho(rho_of(parts, i)) == fmul(
            GAS_K as int,
            fsub(fadd(EPSILON as int, fmul(P_MASS as int, w_dens(0))), RHO_INIT as int),
        ),
{
    crate::grid::lemma_cell_decompose(parts[i].pos);
    let ci = cell_of(parts[i].pos);
    crate::grid::lemma_near_cells_no_dup(ci);
    crate::grid::lemma_near_cells_mem(
        ci,
        crate::grid::cell_x_of(parts[i].pos.x as int),
        crate::grid::cell_y_of(parts[i].pos.y as int),
    );
    lemma_gather_isolated(parts, near_cells(ci), i);
    let d2s = neighbor_dists_of(parts, i);
    assert(d2s == seq![0i64]);
    assert(d2s.len() == 1);
    assert(d2s.last() == 0i64);
    assert(d2s.drop_last() =~= Seq::<i64>::empty());
    assert(rho_sum(d2s.drop_last()) == EPSILON as int);
    assert(rho_sum(d2s) == fadd(
        rho_sum(d2s.drop_last()),
        fmul(P_MASS as int, w_dens(d2s.last() as int)),
    ));
}

/// Scan the grid for every particle's neighbors, then accumulate density and
/// derive pressure, writing the results into the scratch entries.  Runs
/// after a grid rebuild: the grid and the cached cell indices must match the
/// current positions.
#[verifier::rlimit(60)]
pub fn calculate_rho(ps: &ParticleSystem, idxs: &mut Vec<ParticleIdx>)
    requires
        grid_built(*ps),
        old(idxs)@.len() == ps.particles@.len(),
        forall|k: int|
            0 <= k < old(idxs)@.len() ==> (#[trigger] old(idxs)@[k]).map_idx as int == cell_of(
                ps.particles@[k].pos,
            ),
    ensures
        final(idxs)@.len() == old(idxs)@.len(),
        forall|k: int|
            0 <= k < final(idxs)@.len() ==> {
                let f = #[trigger] final(idxs)@[k];
                let o = old(idxs)@[k];
                &&& f.idx == o.idx
                &&& f.map_idx == o.map_idx
                &&& f.accel == o.accel
                &&& f.near_particles@ == neighbors_of(ps.particles@, k)
                &&& f.near_dist@ == neighbor_dists_of(ps.particles@, k)
                &&& f.rho as int == rho_of(ps.particles@, k)
                &&& f.rho >= EPSILON
                &&& f.press as int == press_of_rho(rho_of(ps.particles@, k))
            },
{
    let n = ps.particles.len();
    let ghost parts = ps.particles@;
    let mut cells_buf: Vec<usize> = Vec::new();
    let mut out: Vec<ParticleIdx> = Vec::new();
    let mut k: usize = 0;
    while k < n
        invariant
            grid_built(*ps),
            n == parts.len(),
            parts == ps.particles@,
            idxs@.len() == n,
            forall|kk: int|
                0 <= kk < n ==> (#[trigger] idxs@[kk]).map_idx as int == cell_of(parts[kk].pos),
            k <= n,
            out@.len() == k,
            forall|kk: int|
                0 <= kk < k ==> {
                    let f = #[trigger] out@[kk];
                    let o = idxs@[kk];
                    &&& f.idx == o.idx
                    &&& f.map_idx == o.map_idx
                    &&& f.accel == o.accel
                    &&& f.near_particles@ == neighbors_of(parts, kk)
                    &&& f.near_dist@ == neighbor_dists_of(parts, kk)
                    &&& f.rho as int == rho_of(parts, kk)
                    &&& f.rho >= EPSILON
                    &&& f.press as int == press_of_rho(rho_of(parts, kk))
                },
        decreases n - k,
    {
        let pos = ps.particles[k].pos;
        let map_idx = idxs[k].map_idx;
        near_grid(map_idx, &mut cells_buf);
        let ghost cells = cells_buf@;

        let mut near_p: Vec<usize> = Vec::new();
        let mut near_d: Vec<i64> = Vec::new();
        let mut ci: usize = 0;
        while ci < cells_buf.len()
            invariant
                grid_built(*ps),
                n == parts.len(),
                parts == ps.particles@,
                cells_buf@ == cells,
                ci <= cells.len(),
                forall|t: int| 0 <= t < cells.len() ==> #[trigger] cells[t] < N_CELLS,
                near_p@ == gather_idx(parts, cells.take(ci as int), pos),
                near_d@ == gather_d2(parts, cells.take(ci as int), pos),
            decreases cells.len() - ci,
        {
            let c = cells_buf[ci];
            let cl_len = ps.particle_map[c].len();
            proof {
                lemma_cell_list_entries(parts, c as int);
            }
            let ghost lst = cell_list(parts, c as int);
            let mut t: usize = 0;
            while t < cl_len
                invariant
                    grid_built(*ps),
                    n == parts.len(),
                    parts == ps.particles@,
                    c < N_CELLS,
                    lst == cell_list(parts, c as int),
                    cl_len == lst.len(),
                    ps.particle_map@[c as int]@ == lst,
                    forall|tt: int| 0 <= tt < lst.len() ==> #[trigger] lst[tt] < n,
                    t <= cl_len,
                    near_p@ == gather_idx(parts, cells.take(ci as int), pos) + sel_idx(
                        parts,
                        lst.take(t as int),
                        pos,
                    ),
                    near_d@ == gather_d2(parts, cells.take(ci as int), pos) + sel_d2(
                        parts,
                        lst.take(t as int),
                        pos,
                    ),
                decreases cl_len - t,
            {
                proof {
                    assert(lst.take(t as int + 1).drop_last() =~= lst.take(t as int));
                }
                let j = ps.particle_map[c][t];
                let d2 = dist2_fx(ps.particles[j].pos, pos);
                if d2 < H_RADIUS_SQ {
                    near_p.push(j);
                    near_d.push(d2);
                }
                t += 1;
            }
            proof {
                assert(lst.take(lst.len() as int) =~= lst);
                assert(cells.take(ci as int + 1).drop_last() =~= cells.take(ci as int));
            }
            ci += 1;
        }
        proof {
            assert(cells.take(cells.len() as int) =~= cells);
        }

        let mut rho: i64 = EPSILON;
        let nd_len = near_d.len();
        let mut t: usize = 0;
        while t < nd_len
            invariant
                nd_len == near_d@.len(),
                t <= nd_len,
                rho as int == rho_sum(near_d@.take(t as int)),
                rho >= EPSILON,
            decreases nd_len - t,
        {
            proof {
                assert(near_d@.take(t as int + 1).drop_last() =~= near_d@.take(t as int));
                lemma_w_dens_nonneg(near_d@[t as int] as int);
                lemma_fmul_nonneg(P_MASS as int, w_dens(near_d@[t as int] as int));
                lemma_fadd_ge(rho as int, fmul(P_MASS as int, w_dens(near_d@[t as int] as int)));
            }
            rho = fadd_fx(rho, fmul_fx(P_MASS, density_kernel(near_d[t])));
            t += 1;
        }
        proof {
            assert(near_d@.take(near_d@.len() as int) =~= near_d@);
        }
        let press = fmul_fx(GAS_K, fsub_fx(rho, RHO_INIT));

        out.push(ParticleIdx {
            idx: idxs[k].idx,
            map_idx,
            near_particles: near_p,
            near_dist: near_d,
            rho,
            press,
            accel: idxs[k].accel,
        });
        k += 1;
    }
    *idxs = out;
}

/// Commit the densities and pressures of the scratch entries into the
/// particle store, leaving positions and velocities untouched.
pub fn apply_rho(ps: &mut ParticleSystem, idxs: &Vec<ParticleIdx>)
    requires
        idxs@.len() == old(ps).particles@.len(),
    ensures
        final(ps).particle_map@ == old(ps).particle_map@,
        final(ps).particles@.len() == old(ps).particles@.len(),
        forall|k: int|
            0 <= k < final(ps).particles@.len() ==> #[trigger] final(ps).particles@[k]
                == (ParticleValue {
                pos: old(ps).particles@[k].pos,
                vel: old(ps).particles@[k].vel,
                rho: idxs@[k].rho,
                press: idxs@[k].press,
            }),
{
    let n = ps.particles.len();
    let ghost parts = ps.particles@;
    let mut out: Vec<ParticleValue> = Vec::new();
    let mut k: usize = 0;
    while k < n
        invariant
            n == parts.len(),
            parts == ps.particles@,
            idxs@.len() == n,
            k <= n,
            out@.len() == k,
            forall|kk: int|
                0 <= kk < k ==> #[trigger] out@[kk] == (ParticleValue {
                    pos: parts[kk].pos,
                    vel: parts[kk].vel,
                    rho: idxs@[kk].rho,
                    press: idxs@[kk].press,
                }),
        decreases n - k,
    {
        let p = &ps.particles[k];
        out.push(ParticleValue { pos: p.pos, vel: p.vel, rho: idxs[k].rho, press: idxs[k].press });
        k += 1;
    }
    ps.particles = out;
}

} // verus!
