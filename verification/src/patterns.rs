use crate::cell::Cell;
use crate::grid::{toggle_at, wrap_add, Universe};
use vstd::prelude::*;

verus! {

/// The four orientations a glider can be seeded in.
#[derive(Clone, Copy, PartialEq, Eq, Structural, Debug)]
pub enum Glider {
    NorthWest,
    SouthWest,
    NorthEast,
    SouthEast,
}

/// `s` after toggling each listed index in order. An index listed twice is
/// toggled twice, i.e. restored.
pub open spec fn apply_toggles(s: Seq<Cell>, l: Seq<int>) -> Seq<Cell>
    decreases l.len(),
{
    if l.len() == 0 {
        s
    } else {
        apply_toggles(toggle_at(s, l[0]), l.subrange(1, l.len() as int))
    }
}

/// How often index `k` occurs in `l`.
pub open spec fn toggle_count(l: Seq<int>, k: int) -> nat
    decreases l.len(),
{
    if l.len() == 0 {
        0
    } else {
        (if l[0] == k {
            1nat
        } else {
            0nat
        }) + toggle_count(l.subrange(1, l.len() as int), k)
    }
}

/// Wrapped row-major index of the cell `(dr, dc)` away from the anchor.
pub open spec fn wrapped_index(w: int, h: int, row: int, col: int, dr: int, dc: int) -> int {
    ((row + dr) % h) * w + ((col + dc) % w)
}

/// The anchored, wrapped toggle indices of a table of `(dr, dc)` offsets.
pub open spec fn pattern_indices(
    w: int,
    h: int,
    row: int,
    col: int,
    deltas: Seq<(int, int)>,
) -> Seq<int> {
    Seq::new(
        deltas.len(),
        |i: int| wrapped_index(w, h, row, col, deltas[i].0, deltas[i].1),
    )
}

/// A machine-width offset table, read as mathematical pairs.
pub open spec fn delta_ints(ds: Seq<(u32, u32)>) -> Seq<(int, int)> {
    Seq::new(ds.len(), |i: int| (ds[i].0 as int, ds[i].1 as int))
}

/// The five `(dr, dc)` offsets of a glider in the given orientation.
/// Offsets written `h - 1` or `w - 1` sit one cell before the wrap
/// boundary; the tables are fixed data that encode the glider shapes.
pub open spec fn glider_deltas(g: Glider, w: int, h: int) -> Seq<(int, int)> {
    match g {
        Glider::NorthWest => seq![(h - 1, w - 1), (0, w - 1), (1, w - 1), (h - 1, 0), (0, 1)],
        Glider::SouthWest => seq![(1, w - 1), (0, w - 1), (h - 1, w - 1), (1, 0), (0, 1)],
        Glider::NorthEast => seq![(h - 1, 1), (0, 1), (1, 1), (h - 1, 0), (0, w - 1)],
        Glider::SouthEast => seq![(1, 1), (0, 1), (h - 1, 1), (1, 0), (0, w - 1)],
    }
}

/// The 48 `(dr, dc)` offsets of the pulsar, as one fixed table. Row
/// offsets that count back from the wrap boundary are written with the
/// width (`w - k`) and column offsets with the height (`h - k`); on the
/// square grids pulsars are placed on, the two coincide.
pub open spec fn pulsar_deltas(w: int, h: int) -> Seq<(int, int)> {
    seq![
        (w - 6, h - 2), (w - 6, h - 3), (w - 6, h - 4),
        (w - 4, h - 6), (w - 3, h - 6), (w - 2, h - 6),
        (w - 1, h - 2), (w - 1, h - 3), (w - 1, h - 4),
        (w - 2, h - 1), (w - 3, h - 1), (w - 4, h - 1),
        (6, h - 2), (6, h - 3), (6, h - 4),
        (4, h - 6), (3, h - 6), (2, h - 6),
        (1, h - 2), (1, h - 3), (1, h - 4),
        (2, h - 1), (3, h - 1), (4, h - 1),
        (6, 2), (6, 3), (6, 4),
        (4, 6), (3, 6), (2, 6),
        (1, 2), (1, 3), (1, 4),
        (2, 1), (3, 1), (4, 1),
        (w - 6, 2), (w - 6, 3), (w - 6, 4),
        (w - 4, 6), (w - 3, 6), (w - 2, 6),
        (w - 1, 2), (w - 1, 3), (w - 1, 4),
        (w - 2, 1), (w - 3, 1), (w - 4, 1),
    ]
}

/// Toggling the indices of `l.push(x)` toggles those of `l` first, then `x`.
pub proof fn lemma_apply_toggles_snoc(s: Seq<Cell>, l: Seq<int>, x: int)
    ensures
        apply_toggles(s, l.push(x)) == toggle_at(apply_toggles(s, l), x),
    decreases l.len(),
{
    if l.len() == 0 {
        assert(l.push(x)[0] == x);
        assert(l.push(x).subrange(1, 1) =~= Seq::<int>::empty());
        assert(apply_toggles(s, l.push(x)) == apply_toggles(toggle_at(s, x), Seq::<int>::empty()));
        assert(apply_toggles(toggle_at(s, x), Seq::<int>::empty()) == toggle_at(s, x));
        assert(apply_toggles(s, l) == s);
    } else {
        let rest = l.subrange(1, l.len() as int);
        assert(l.push(x)[0] == l[0]);
        assert(l.push(x).subrange(1, l.len() as int + 1) =~= rest.push(x));
        assert(apply_toggles(s, l.push(x)) == apply_toggles(toggle_at(s, l[0]), rest.push(x)));
        lemma_apply_toggles_snoc(toggle_at(s, l[0]), rest, x);
        assert(apply_toggles(s, l) == apply_toggles(toggle_at(s, l[0]), rest));
    }
}

impl Universe {
    /// Toggle the cell at each anchored, wrapped `(dr, dc)` offset, in
    /// table order.
    fn toggle_list(&mut self, row: u32, col: u32, deltas: &Vec<(u32, u32)>)
        requires
            old(self)@.wf(),
            1 <= old(self)@.width,
            1 <= old(self)@.height,
        ensures
            final(self)@.wf(),
            final(self)@.width == old(self)@.width,
            final(self)@.height == old(self)@.height,
            final(self)@.cells == apply_toggles(
                old(self)@.cells,
                pattern_indices(
                    old(self)@.width,
                    old(self)@.height,
                    row as int,
                    col as int,
                    delta_ints(deltas@),
                ),
            ),
    {
        let ghost orig = self@;
        let ghost idxs = pattern_indices(
            orig.width,
            orig.height,
            row as int,
            col as int,
            delta_ints(deltas@),
        );
        let w = self.width();
        let h = self.height();
        let n = deltas.len();
        let mut i: usize = 0;
        proof {
            assert(idxs.take(0) =~= Seq::<int>::empty());
        }
        while i < n
            invariant
                orig.wf(),
                self@.wf(),
                self@.width == orig.width,
                self@.height == orig.height,
                1 <= orig.width,
                1 <= orig.height,
                w == orig.width,
                h == orig.height,
                n == deltas@.len(),
                i <= n,
                idxs == pattern_indices(
                    orig.width,
                    orig.height,
                    row as int,
                    col as int,
                    delta_ints(deltas@),
                ),
                self@.cells == apply_toggles(orig.cells, idxs.take(i as int)),
            decreases n - i,
        {
            let d = deltas[i];
            let n_row = wrap_add(row, d.0, h);
            let n_col = wrap_add(col, d.1, w);
            proof {
                assert(n_row * orig.width + n_col == idxs[i as int]);
            }
            self.toggle_cell(n_row, n_col);
            proof {
                lemma_apply_toggles_snoc(orig.cells, idxs.take(i as int), idxs[i as int]);
                assert(idxs.take(i as int + 1) =~= idxs.take(i as int).push(idxs[i as int]));
            }
            i = i + 1;
        }
        proof {
            assert(idxs.take(n as int) =~= idxs);
        }
    }

    /// Seed a glider in the given orientation by toggling its five offset
    /// cells around the wrapped anchor `(row, col)`. Placement toggles
    /// rather than sets, so placing the same glider twice restores the
    /// prior state.
    pub fn create_glider(&mut self, row: u32, col: u32, g: Glider)
        requires
            old(self)@.wf(),
            1 <= old(self)@.width,
            1 <= old(self)@.height,
        ensures
            final(self)@.wf(),
            final(self)@.width == old(self)@.width,
            final(self)@.height == old(self)@.height,
            final(self)@.cells == apply_toggles(
                old(self)@.cells,
                pattern_indices(
                    old(self)@.width,
                    old(self)@.height,
                    row as int,
                    col as int,
                    glider_deltas(g, old(self)@.width, old(self)@.height),
                ),
            ),
    {
        let w = self.width();
        let h = self.height();
        let mut dv: Vec<(u32, u32)> = Vec::new();
        match g {
            Glider::NorthWest => {
                dv.push((h - 1, w - 1));
                dv.push((0, w - 1));
                dv.push((1, w - 1));
                dv.push((h - 1, 0));
                dv.push((0, 1));
            },
            Glider::SouthWest => {
                dv.push((1, w - 1));
                dv.push((0, w - 1));
                dv.push((h - 1, w - 1));
                dv.push((1, 0));
                dv.push((0, 1));
            },
            Glider::NorthEast => {
                dv.push((h - 1, 1));
                dv.push((0, 1));
                dv.push((1, 1));
                dv.push((h - 1, 0));
                dv.push((0, w - 1));
            },
            Glider::SouthEast => {
                dv.push((1, 1));
                dv.push((0, 1));
                dv.push((h - 1, 1));
                dv.push((1, 0));
                dv.push((0, w - 1));
            },
        }
        proof {
            assert(delta_ints(dv@) =~= glider_deltas(g, self@.width, self@.height));
        }
        self.toggle_list(row, col, &dv);
    }

    /// Seed a pulsar by toggling its 48 offset cells around the wrapped
    /// anchor `(row, col)`. Placement toggles rather than sets, so placing
    /// the same pulsar twice restores the prior state.
    #[verifier::rlimit(100)]
    pub fn create_pulsar(&mut self, row: u32, col: u32)
        requires
            old(self)@.wf(),
            6 <= old(self)@.width,
            6 <= old(self)@.height,
        ensures
            final(self)@.wf(),
            final(self)@.width == old(self)@.width,
            final(self)@.height == old(self)@.height,
            final(self)@.cells == apply_toggles(
                old(self)@.cells,
                pattern_indices(
                    old(self)@.width,
                    old(self)@.height,
                    row as int,
                    col as int,
                    pulsar_deltas(old(self)@.width, old(self)@.height),
                ),
            ),
    {
        let w = self.width();
        let h = self.height();
        let mut dv: Vec<(u32, u32)> = Vec::new();
        dv.push((w - 6, h - 2));
        dv.push((w - 6, h - 3));
        dv.push((w - 6, h - 4));
        dv.push((w - 4, h - 6));
        dv.push((w - 3, h - 6));
        dv.push((w - 2, h - 6));
        dv.push((w - 1, h - 2));
        dv.push((w - 1, h - 3));
        dv.push((w - 1, h - 4));
        dv.push((w - 2, h - 1));
        dv.push((w - 3, h - 1));
        dv.push((w - 4, h - 1));
        dv.push((6, h - 2));
        dv.push((6, h - 3));
        dv.push((6, h - 4));
        dv.push((4, h - 6));
        dv.push((3, h - 6));
        dv.push((2, h - 6));
        dv.push((1, h - 2));
        dv.push((1, h - 3));
        dv.push((1, h - 4));
        dv.push((2, h - 1));
        dv.push((3, h - 1));
        dv.push((4, h - 1));
        dv.push((6, 2));
        dv.push((6, 3));
        dv.push((6, 4));
        dv.push((4, 6));
        dv.push((3, 6));
        dv.push((2, 6));
        dv.push((1, 2));
        dv.push((1, 3));
        dv.push((1, 4));
        dv.push((2, 1));
        dv.push((3, 1));
        dv.push((4, 1));
        dv.push((w - 6, 2));
        dv.push((w - 6, 3));
        dv.push((w - 6, 4));
        dv.push((w - 4, 6));
        dv.push((w - 3, 6));
        dv.push((w - 2, 6));
        dv.push((w - 1, 2));
        dv.push((w - 1, 3));
        dv.push((w - 1, 4));
        dv.push((w - 2, 1));
        dv.push((w - 3, 1));
        dv.push((w - 4, 1));
        proof {
            assert(delta_ints(dv@) =~= pulsar_deltas(self@.width, self@.height));
        }
        self.toggle_list(row, col, &dv);
    }
}

} // verus!
