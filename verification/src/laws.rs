use crate::cell::Cell;
use crate::grid::{
    lemma_row_major, lemma_wrap_dec, lemma_wrap_inc, neighbor_count, next_cell, next_gen,
    toggle_at, wrap_dec_spec, wrap_inc_spec,
};
use crate::patterns::{apply_toggles, pattern_indices, toggle_count};
use vstd::arithmetic::div_mod::{lemma_fundamental_div_mod, lemma_mod_bound};
use vstd::prelude::*;

verus! {

/// The grid after `n` generations.
pub open spec fn generations(s: Seq<Cell>, w: int, h: int, n: nat) -> Seq<Cell>
    decreases n,
{
    if n == 0 {
        s
    } else {
        next_gen(generations(s, w, h, (n - 1) as nat), w, h)
    }
}

/// Law: advancing the grid is deterministic. A generation is a pure
/// function of the current dimensions and cell buffer, so two grids that
/// agree on those agree on every later generation, however often they tick.
pub proof fn lemma_tick_deterministic(s1: Seq<Cell>, s2: Seq<Cell>, w: int, h: int, n: nat)
    requires
        s1 == s2,
    ensures
        generations(s1, w, h, n) == generations(s2, w, h, n),
{
}

/// A quotient `k / w` of an index below `w * h` is a valid row.
proof fn lemma_div_in_range(k: int, w: int, h: int)
    requires
        1 <= w,
        0 <= k < w * h,
    ensures
        0 <= k / w < h,
{
    lemma_fundamental_div_mod(k, w);
    lemma_mod_bound(k, w);
    assert(0 <= k / w < h) by (nonlinear_arith)
        requires
            1 <= w,
            0 <= k < w * h,
            k == w * (k / w) + k % w,
            0 <= k % w < w,
    ;
}

/// Pointwise effect of a toggle list: index `k` ends flipped exactly when
/// it occurs an odd number of times in the list.
pub proof fn lemma_apply_toggles_pointwise(s: Seq<Cell>, l: Seq<int>, k: int)
    requires
        forall|i: int| 0 <= i < l.len() ==> 0 <= #[trigger] l[i] < s.len(),
        0 <= k < s.len(),
    ensures
        apply_toggles(s, l).len() == s.len(),
        apply_toggles(s, l)[k] == (if toggle_count(l, k) % 2 == 0 {
            s[k]
        } else {
            s[k].flipped()
        }),
    decreases l.len(),
{
    if l.len() > 0 {
        let rest = l.subrange(1, l.len() as int);
        let s1 = toggle_at(s, l[0]);
        assert(s1.len() == s.len());
        assert(forall|i: int| 0 <= i < rest.len() ==> 0 <= #[trigger] rest[i] < s1.len());
        lemma_apply_toggles_pointwise(s1, rest, k);
        assert(toggle_count(l, k) == (if l[0] == k {
            1nat
        } else {
            0nat
        }) + toggle_count(rest, k));
        assert(s[k].flipped().flipped() == s[k]);
    }
}

/// Law: a toggle list of in-range indices applied twice restores the
/// buffer cell-for-cell.
pub proof fn lemma_toggle_twice(s: Seq<Cell>, l: Seq<int>)
    requires
        forall|i: int| 0 <= i < l.len() ==> 0 <= #[trigger] l[i] < s.len(),
    ensures
        apply_toggles(apply_toggles(s, l), l) == s,
{
    let s1 = apply_toggles(s, l);
    if l.len() == 0 {
    } else {
        assert(0 <= l[0] < s.len());
        assert forall|k: int| 0 <= k < s.len() implies apply_toggles(s1, l)[k] == s[k] by {
            lemma_apply_toggles_pointwise(s, l, k);
            lemma_apply_toggles_pointwise(s1, l, k);
        }
        lemma_apply_toggles_pointwise(s, l, 0);
        lemma_apply_toggles_pointwise(s1, l, 0);
        assert(apply_toggles(s1, l) =~= s);
    }
}

/// Law: pattern placement is its own inverse. Toggling one anchored offset
/// table twice — as placing the same pattern twice does — restores the grid
/// exactly.
pub proof fn lemma_place_pattern_involutive(
    s: Seq<Cell>,
    w: int,
    h: int,
    row: int,
    col: int,
    deltas: Seq<(int, int)>,
)
    requires
        s.len() == w * h,
        1 <= w,
        1 <= h,
        0 <= row,
        0 <= col,
        forall|i: int| 0 <= i < deltas.len() ==> 0 <= (#[trigger] deltas[i]).0 && 0 <= deltas[i].1,
    ensures
        apply_toggles(
            apply_toggles(s, pattern_indices(w, h, row, col, deltas)),
            pattern_indices(w, h, row, col, deltas),
        ) == s,
{
    let idxs = pattern_indices(w, h, row, col, deltas);
    assert forall|i: int| 0 <= i < idxs.len() implies 0 <= #[trigger] idxs[i] < s.len() by {
        lemma_mod_bound(row + deltas[i].0, h);
        lemma_mod_bound(col + deltas[i].1, w);
        lemma_row_major(w, h, (row + deltas[i].0) % h, (col + deltas[i].1) % w);
    }
    lemma_toggle_twice(s, idxs);
}

/// Law: a cell never counts itself. On a grid of at least 2×2 where every
/// cell except `(r, c)` is `Dead`, the neighbor count at `(r, c)` is 0,
/// whatever `(r, c)` itself holds.
pub proof fn lemma_no_self_count(s: Seq<Cell>, w: int, h: int, r: int, c: int)
    requires
        2 <= w,
        2 <= h,
        s.len() == w * h,
        0 <= r < h,
        0 <= c < w,
        forall|k: int| 0 <= k < s.len() && k != r * w + c ==> (#[trigger] s[k]) is Dead,
    ensures
        neighbor_count(s, w, h, r, c) == 0,
{
    let rm = wrap_dec_spec(r, h);
    let rp = wrap_inc_spec(r, h);
    let cm = wrap_dec_spec(c, w);
    let cp = wrap_inc_spec(c, w);
    lemma_wrap_dec(r, h);
    lemma_wrap_inc(r, h);
    lemma_wrap_dec(c, w);
    lemma_wrap_inc(c, w);
    lemma_row_major(w, h, r, c);
    lemma_row_major(w, h, rm, cm);
    lemma_row_major(w, h, rm, c);
    lemma_row_major(w, h, rm, cp);
    lemma_row_major(w, h, r, cm);
    lemma_row_major(w, h, r, cp);
    lemma_row_major(w, h, rp, cm);
    lemma_row_major(w, h, rp, c);
    lemma_row_major(w, h, rp, cp);
}

/// Law: wrapping reaches the far corner. On a grid of at least 3×3 where
/// only the far corner `(h - 1, w - 1)` is `Alive`, the neighbor count of
/// `(0, 0)` is exactly 1.
pub proof fn lemma_wraparound(s: Seq<Cell>, w: int, h: int)
    requires
        3 <= w,
        3 <= h,
        s.len() == w * h,
        s[(h - 1) * w + (w - 1)] is Alive,
        forall|k: int|
            0 <= k < s.len() && k != (h - 1) * w + (w - 1) ==> (#[trigger] s[k]) is Dead,
    ensures
        neighbor_count(s, w, h, 0, 0) == 1,
{
    lemma_wrap_dec(0, h);
    lemma_wrap_inc(0, h);
    lemma_wrap_dec(0, w);
    lemma_wrap_inc(0, w);
    lemma_row_major(w, h, h - 1, w - 1);
    lemma_row_major(w, h, h - 1, 0);
    lemma_row_major(w, h, h - 1, 1);
    lemma_row_major(w, h, 0, w - 1);
    lemma_row_major(w, h, 0, 1);
    lemma_row_major(w, h, 1, w - 1);
    lemma_row_major(w, h, 1, 0);
    lemma_row_major(w, h, 1, 1);
}

/// Alive exactly on the 2×2 square covering rows {1, 2} and cols {1, 2}.
pub open spec fn block_cell_at(r: int, c: int) -> bool {
    (r == 1 || r == 2) && (c == 1 || c == 2)
}

/// A grid holding a single 2×2 all-`Alive` block and nothing else.
pub open spec fn block_grid(w: int, h: int) -> Seq<Cell> {
    Seq::new(
        (w * h) as nat,
        |k: int| if block_cell_at(k / w, k % w) {
            Cell::Alive
        } else {
            Cell::Dead
        },
    )
}

/// Reading the block grid at a valid coordinate pair.
proof fn lemma_block_at(w: int, h: int, r: int, c: int)
    requires
        1 <= w,
        0 <= r < h,
        0 <= c < w,
    ensures
        block_grid(w, h)[r * w + c] == (if block_cell_at(r, c) {
            Cell::Alive
        } else {
            Cell::Dead
        }),
{
    lemma_row_major(w, h, r, c);
}

/// One step of the rule at a valid coordinate of the block grid leaves the
/// cell as it was.
proof fn lemma_block_next_cell(w: int, h: int, r: int, c: int)
    requires
        4 <= w,
        4 <= h,
        0 <= r < h,
        0 <= c < w,
    ensures
        next_cell(block_grid(w, h), w, h, r, c) == block_grid(w, h)[r * w + c],
{
    let s = block_grid(w, h);
    let rm = wrap_dec_spec(r, h);
    let rp = wrap_inc_spec(r, h);
    let cm = wrap_dec_spec(c, w);
    let cp = wrap_inc_spec(c, w);
    lemma_wrap_dec(r, h);
    lemma_wrap_inc(r, h);
    lemma_wrap_dec(c, w);
    lemma_wrap_inc(c, w);
    lemma_block_at(w, h, r, c);
    lemma_block_at(w, h, rm, cm);
    lemma_block_at(w, h, rm, c);
    lemma_block_at(w, h, rm, cp);
    lemma_block_at(w, h, r, cm);
    lemma_block_at(w, h, r, cp);
    lemma_block_at(w, h, rp, cm);
    lemma_block_at(w, h, rp, c);
    lemma_block_at(w, h, rp, cp);
    assert(neighbor_count(s, w, h, r, c) == (if block_cell_at(rm, cm) {
        1int
    } else {
        0int
    }) + (if block_cell_at(rm, c) {
        1int
    } else {
        0int
    }) + (if block_cell_at(rm, cp) {
        1int
    } else {
        0int
    }) + (if block_cell_at(r, cm) {
        1int
    } else {
        0int
    }) + (if block_cell_at(r, cp) {
        1int
    } else {
        0int
    }) + (if block_cell_at(rp, cm) {
        1int
    } else {
        0int
    }) + (if block_cell_at(rp, c) {
        1int
    } else {
        0int
    }) + (if block_cell_at(rp, cp) {
        1int
    } else {
        0int
    }));
}

/// Law: a 2×2 block is a still life. On a grid of at least 4×4, one
/// generation maps the block grid to itself: every live cell has exactly 3
/// live neighbors and no dead cell has exactly 3.
pub proof fn lemma_block_stable(w: int, h: int)
    requires
        4 <= w,
        4 <= h,
    ensures
        next_gen(block_grid(w, h), w, h) == block_grid(w, h),
{
    let s = block_grid(w, h);
    assert forall|k: int| 0 <= k < w * h implies next_gen(s, w, h)[k] == s[k] by {
        lemma_div_in_range(k, w, h);
        lemma_fundamental_div_mod(k, w);
        lemma_mod_bound(k, w);
        assert(w * (k / w) == (k / w) * w) by (nonlinear_arith);
        lemma_block_next_cell(w, h, k / w, k % w);
    }
    assert(next_gen(s, w, h) =~= s);
}

/// Law: the block stays a still life after any number of generations.
pub proof fn lemma_block_stable_forever(w: int, h: int, n: nat)
    requires
        4 <= w,
        4 <= h,
    ensures
        generations(block_grid(w, h), w, h, n) == block_grid(w, h),
    decreases n,
{
    if n > 0 {
        lemma_block_stable_forever(w, h, (n - 1) as nat);
        lemma_block_stable(w, h);
    }
}

} // verus!
