use crate::cell::Cell;
use vstd::arithmetic::div_mod::{
    lemma_fundamental_div_mod_converse, lemma_mod_bound, lemma_mod_multiples_vanish,
    lemma_small_mod,
};
use vstd::prelude::*;

verus! {

/// Mathematical model of a grid: its dimensions and the row-major cell
/// sequence (`index = row * width + col`).
pub ghost struct GridView {
    pub width: int,
    pub height: int,
    pub cells: Seq<Cell>,
}

impl GridView {
    /// Well-formedness: the buffer holds exactly `width * height` cells and
    /// the area fits the 32-bit arithmetic that index computations use.
    pub open spec fn wf(self) -> bool {
        &&& 0 <= self.width <= u32::MAX
        &&& 0 <= self.height <= u32::MAX
        &&& self.cells.len() == self.width * self.height
        &&& self.width * self.height <= u32::MAX
    }
}

/// One step backwards on a torus of `n` positions, written as
/// `(x + n - 1) % n` so that unsigned arithmetic cannot underflow at 0.
pub open spec fn wrap_dec_spec(x: int, n: int) -> int {
    (x + n - 1) % n
}

/// One step forwards on a torus of `n` positions.
pub open spec fn wrap_inc_spec(x: int, n: int) -> int {
    (x + 1) % n
}

/// Closed form of `wrap_dec_spec` on an in-range coordinate.
pub proof fn lemma_wrap_dec(x: int, n: int)
    requires
        1 <= n,
        0 <= x < n,
    ensures
        wrap_dec_spec(x, n) == if x == 0 { n - 1 } else { x - 1 },
{
    if x == 0 {
        lemma_small_mod((n - 1) as nat, n as nat);
    } else {
        lemma_mod_multiples_vanish(1, x - 1, n);
        lemma_small_mod((x - 1) as nat, n as nat);
    }
}

/// Closed form of `wrap_inc_spec` on an in-range coordinate.
pub proof fn lemma_wrap_inc(x: int, n: int)
    requires
        1 <= n,
        0 <= x < n,
    ensures
        wrap_inc_spec(x, n) == if x == n - 1 { 0 } else { x + 1 },
{
    if x == n - 1 {
        lemma_mod_multiples_vanish(1, 0, n);
        lemma_small_mod(0, n as nat);
    } else {
        lemma_small_mod((x + 1) as nat, n as nat);
    }
}

/// On a row-major layout, `(r, c)` maps to `r * w + c`, which stays under
/// `w * h` and is inverted by division and remainder.
pub proof fn lemma_row_major(w: int, h: int, r: int, c: int)
    requires
        0 <= r < h,
        0 <= c < w,
    ensures
        0 <= r * w + c < w * h,
        (r * w + c) / w == r,
        (r * w + c) % w == c,
{
    assert(0 <= r * w + c < w * h) by (nonlinear_arith)
        requires
            0 <= r < h,
            0 <= c < w,
    ;
    lemma_fundamental_div_mod_converse(r * w + c, w, r, c);
}

/// Number of live cells among the 8 toroidally wrapped neighbors of
/// `(r, c)`: both axes wrap independently and the cell itself is skipped.
pub open spec fn neighbor_count(s: Seq<Cell>, w: int, h: int, r: int, c: int) -> int {
    let rm = wrap_dec_spec(r, h);
    let rp = wrap_inc_spec(r, h);
    let cm = wrap_dec_spec(c, w);
    let cp = wrap_inc_spec(c, w);
    s[rm * w + cm].weight() + s[rm * w + c].weight() + s[rm * w + cp].weight()
        + s[r * w + cm].weight() + s[r * w + cp].weight() + s[rp * w + cm].weight()
        + s[rp * w + c].weight() + s[rp * w + cp].weight()
}

/// The classic birth/survival rule applied to one cell, reading only the
/// current generation `s`.
pub open spec fn next_cell(s: Seq<Cell>, w: int, h: int, r: int, c: int) -> Cell {
    let n = neighbor_count(s, w, h, r, c);
    match s[r * w + c] {
        Cell::Alive => if n < 2 {
            Cell::Dead
        } else if n > 3 {
            Cell::Dead
        } else {
            Cell::Alive
        },
        Cell::Dead => if n == 3 {
            Cell::Alive
        } else {
            Cell::Dead
        },
    }
}

/// The full next generation, every cell stepped simultaneously from a
/// snapshot of the current one.
pub open spec fn next_gen(s: Seq<Cell>, w: int, h: int) -> Seq<Cell> {
    Seq::new((w * h) as nat, |k: int| next_cell(s, w, h, k / w, k % w))
}

/// `s` with the cell at index `i` flipped.
pub open spec fn toggle_at(s: Seq<Cell>, i: int) -> Seq<Cell> {
    s.update(i, s[i].flipped())
}

/// One rendered glyph per cell: a filled square for `Alive`, an open square
/// for `Dead`.
pub open spec fn glyph(c: Cell) -> Seq<char> {
    if c is Alive {
        seq!['◼']
    } else {
        seq!['◻']
    }
}

/// The first `n` cells of row `r`, rendered.
pub open spec fn rendered_row(s: Seq<Cell>, w: int, r: int, n: int) -> Seq<char>
    decreases n,
{
    if n <= 0 {
        Seq::empty()
    } else {
        rendered_row(s, w, r, n - 1) + glyph(s[r * w + (n - 1)])
    }
}

/// The first `n` rows, each rendered and closed with a newline.
pub open spec fn rendered_grid(s: Seq<Cell>, w: int, n: int) -> Seq<char>
    decreases n,
{
    if n <= 0 {
        Seq::empty()
    } else {
        rendered_grid(s, w, n - 1) + rendered_row(s, w, n - 1, w) + seq!['\n']
    }
}

/// A buffer of `n` `Dead` cells.
fn dead_cells(n: u32) -> (v: Vec<Cell>)
    ensures
        v@.len() == n,
        forall|k: int| 0 <= k < n ==> v@[k] is Dead,
{
    let mut v: Vec<Cell> = Vec::new();
    let mut i: u32 = 0;
    while i < n
        invariant
            i <= n,
            v@.len() == i,
            forall|k: int| 0 <= k < i ==> v@[k] is Dead,
        decreases n - i,
    {
        v.push(Cell::Dead);
        i = i + 1;
    }
    v
}

/// `x - 1` wrapped on a torus of `n` positions.
pub(crate) fn wrap_dec(x: u32, n: u32) -> (r: u32)
    requires
        1 <= n,
        x < n,
    ensures
        r == wrap_dec_spec(x as int, n as int),
        r < n,
{
    proof {
        lemma_wrap_dec(x as int, n as int);
    }
    if x == 0 {
        n - 1
    } else {
        x - 1
    }
}

/// `x + 1` wrapped on a torus of `n` positions.
pub(crate) fn wrap_inc(x: u32, n: u32) -> (r: u32)
    requires
        1 <= n,
        x < n,
    ensures
        r == wrap_inc_spec(x as int, n as int),
        r < n,
{
    proof {
        lemma_wrap_inc(x as int, n as int);
    }
    if x == n - 1 {
        0
    } else {
        x + 1
    }
}

/// `(x + d) % n`, with the sum taken in 64 bits so it cannot overflow.
pub(crate) fn wrap_add(x: u32, d: u32, n: u32) -> (r: u32)
    requires
        1 <= n,
    ensures
        r == (x + d) % (n as int),
        r < n,
{
    proof {
        lemma_mod_bound(x as int + d as int, n as int);
    }
    (((x as u64) + (d as u64)) % (n as u64)) as u32
}

/// A toroidal Game of Life grid: dimensions plus a row-major cell buffer
/// whose length is always `width * height`.
pub struct Universe {
    width: u32,
    height: u32,
    cells: Vec<Cell>,
}

impl View for Universe {
    type V = GridView;

    closed spec fn view(&self) -> GridView {
        GridView { width: self.width as int, height: self.height as int, cells: self.cells@ }
    }
}

impl Universe {
    /// Create a grid from explicit dimensions and one seed decision per
    /// cell, `true` seeding `Alive`. The seeding policy itself (for example
    /// a random draw per cell) is supplied by the caller.
    pub fn new(w: u32, h: u32, seed: &Vec<bool>) -> (g: Universe)
        requires
            w * h <= u32::MAX,
            seed@.len() == w * h,
        ensures
            g@.wf(),
            g@.width == w,
            g@.height == h,
            forall|k: int|
                0 <= k < w * h ==> g@.cells[k] == (if seed@[k] {
                    Cell::Alive
                } else {
                    Cell::Dead
                }),
    {
        let n = seed.len();
        let mut cells: Vec<Cell> = Vec::new();
        let mut i: usize = 0;
        while i < n
            invariant
                i <= n,
                n == seed@.len(),
                cells@.len() == i,
                forall|k: int|
                    0 <= k < i ==> cells@[k] == (if seed@[k] {
                        Cell::Alive
                    } else {
                        Cell::Dead
                    }),
            decreases n - i,
        {
            if seed[i] {
                cells.push(Cell::Alive);
            } else {
                cells.push(Cell::Dead);
            }
            i = i + 1;
        }
        Universe { width: w, height: h, cells }
    }

    /// Current width.
    pub fn width(&self) -> (w: u32)
        ensures
            w == self@.width,
    {
        self.width
    }

    /// Current height.
    pub fn height(&self) -> (h: u32)
        ensures
            h == self@.height,
    {
        self.height
    }

    /// Bounds-checked read-only view of the cell buffer, row-major.
    pub fn cells(&self) -> (r: &Vec<Cell>)
        ensures
            r@ == self@.cells,
    {
        &self.cells
    }

    /// The cell buffer as a slice, row-major.
    pub fn get_cells(&self) -> (r: &[Cell])
        ensures
            r@ == self@.cells,
    {
        self.cells.as_slice()
    }

    /// Set the width and replace the buffer with all-`Dead` cells of the
    /// new area: resizing is destructive, prior state is lost.
    pub fn set_width(&mut self, w: u32)
        requires
            old(self)@.wf(),
            w * old(self)@.height <= u32::MAX,
        ensures
            final(self)@.wf(),
            final(self)@.width == w,
            final(self)@.height == old(self)@.height,
            final(self)@.cells.len() == w * old(self)@.height,
            forall|k: int| 0 <= k < final(self)@.cells.len() ==> final(self)@.cells[k] is Dead,
    {
        self.width = w;
        let n = w * self.height;
        self.cells = dead_cells(n);
    }

    /// Set the height and replace the buffer with all-`Dead` cells of the
    /// new area: resizing is destructive, prior state is lost.
    pub fn set_height(&mut self, h: u32)
        requires
            old(self)@.wf(),
            h * old(self)@.width <= u32::MAX,
        ensures
            final(self)@.wf(),
            final(self)@.width == old(self)@.width,
            final(self)@.height == h,
            final(self)@.cells.len() == old(self)@.width * h,
            forall|k: int| 0 <= k < final(self)@.cells.len() ==> final(self)@.cells[k] is Dead,
    {
        self.height = h;
        let n = h * self.width;
        self.cells = dead_cells(n);
        proof {
            assert((h as int) * self@.width == self@.width * (h as int)) by (nonlinear_arith);
        }
    }

    /// Row-major offset of `(row, col)`. Coordinates must already be in
    /// range: wrapping is done at the neighbor and pattern sites, never
    /// here, and an out-of-range call is a contract violation.
    fn get_index(&self, row: u32, col: u32) -> (idx: usize)
        requires
            self@.wf(),
            row < self@.height,
            col < self@.width,
        ensures
            idx == row * self@.width + col,
            idx < self@.cells.len(),
    {
        proof {
            lemma_row_major(self@.width, self@.height, row as int, col as int);
        }
        (row * self.width + col) as usize
    }

    /// Weight (0 or 1) of the cell at in-range `(row, col)`.
    fn weight_at(&self, row: u32, col: u32) -> (n: u8)
        requires
            self@.wf(),
            row < self@.height,
            col < self@.width,
        ensures
            n == self@.cells[row * self@.width + col].weight(),
            n <= 1,
    {
        let idx = self.get_index(row, col);
        match self.cells[idx] {
            Cell::Alive => 1,
            Cell::Dead => 0,
        }
    }

    /// Count live cells among the 8 toroidally wrapped neighbors of
    /// `(row, col)`; the cell itself is never counted.
    pub fn live_neighbor_count(&self, row: u32, col: u32) -> (count: u8)
        requires
            self@.wf(),
            row < self@.height,
            col < self@.width,
        ensures
            count == neighbor_count(self@.cells, self@.width, self@.height, row as int, col as int),
            count <= 8,
    {
        let w = self.width;
        let h = self.height;
        let rm = wrap_dec(row, h);
        let rp = wrap_inc(row, h);
        let cm = wrap_dec(col, w);
        let cp = wrap_inc(col, w);
        let mut count: u8 = 0;
        count = count + self.weight_at(rm, cm);
        count = count + self.weight_at(rm, col);
        count = count + self.weight_at(rm, cp);
        count = count + self.weight_at(row, cm);
        count = count + self.weight_at(row, cp);
        count = count + self.weight_at(rp, cm);
        count = count + self.weight_at(rp, col);
        count = count + self.weight_at(rp, cp);
        count
    }

    /// Flip exactly the addressed cell. Coordinates must already be valid;
    /// out-of-range input is a contract violation, never a silent wrap.
    pub fn toggle_cell(&mut self, row: u32, col: u32)
        requires
            old(self)@.wf(),
            row < old(self)@.height,
            col < old(self)@.width,
        ensures
            final(self)@.wf(),
            final(self)@.width == old(self)@.width,
            final(self)@.height == old(self)@.height,
            final(self)@.cells == toggle_at(old(self)@.cells, row * old(self)@.width + col),
    {
        let idx = self.get_index(row, col);
        let mut c = self.cells[idx];
        c.toggle();
        self.cells.set(idx, c);
    }

    /// Advance one generation: every cell steps simultaneously from a
    /// snapshot of the current buffer, which is then swapped in whole.
    pub fn tick(&mut self)
        requires
            old(self)@.wf(),
        ensures
            final(self)@.wf(),
            final(self)@.width == old(self)@.width,
            final(self)@.height == old(self)@.height,
            final(self)@.cells == next_gen(old(self)@.cells, old(self)@.width, old(self)@.height),
    {
        let ghost orig = self@;
        let w = self.width;
        let h = self.height;
        let mut next: Vec<Cell> = Vec::new();
        let mut row: u32 = 0;
        while row < h
            invariant
                self@ == orig,
                orig.wf(),
                w == orig.width,
                h == orig.height,
                row <= h,
                next@.len() == row * w,
                forall|k: int|
                    0 <= k < row * w ==> next@[k] == next_cell(
                        orig.cells,
                        w as int,
                        h as int,
                        k / (w as int),
                        k % (w as int),
                    ),
            decreases h - row,
        {
            let mut col: u32 = 0;
            while col < w
                invariant
                    self@ == orig,
                    orig.wf(),
                    w == orig.width,
                    h == orig.height,
                    row < h,
                    col <= w,
                    next@.len() == row * w + col,
                    forall|k: int|
                        0 <= k < row * w + col ==> next@[k] == next_cell(
                            orig.cells,
                            w as int,
                            h as int,
                            k / (w as int),
                            k % (w as int),
                        ),
                decreases w - col,
            {
                let idx = self.get_index(row, col);
                let cur = self.cells[idx];
                let live_ns = self.live_neighbor_count(row, col);
                let stepped = match cur {
                    Cell::Alive => if live_ns < 2 {
                        Cell::Dead
                    } else if live_ns > 3 {
                        Cell::Dead
                    } else {
                        Cell::Alive
                    },
                    Cell::Dead => if live_ns == 3 {
                        Cell::Alive
                    } else {
                        Cell::Dead
                    },
                };
                next.push(stepped);
                proof {
                    lemma_row_major(w as int, h as int, row as int, col as int);
                    assert(stepped == next_cell(orig.cells, w as int, h as int, row as int, col as int));
                }
                col = col + 1;
            }
            proof {
                assert((row + 1) * w == row * w + w) by (nonlinear_arith);
            }
            row = row + 1;
        }
        self.cells = next;
        proof {
            assert(w * h == h * w) by (nonlinear_arith);
            assert(self@.cells =~= next_gen(orig.cells, w as int, h as int));
        }
    }

    /// Set every listed `(row, col)` cell to `Alive`, leaving the rest
    /// untouched. All coordinates must be in range.
    pub fn set_cells(&mut self, coords: &[(u32, u32)])
        requires
            old(self)@.wf(),
            forall|i: int|
                0 <= i < coords@.len() ==> coords@[i].0 < old(self)@.height && coords@[i].1
                    < old(self)@.width,
        ensures
            final(self)@.wf(),
            final(self)@.width == old(self)@.width,
            final(self)@.height == old(self)@.height,
            final(self)@.cells.len() == old(self)@.cells.len(),
            forall|k: int|
                0 <= k < final(self)@.cells.len() ==> final(self)@.cells[k] == (
                if (exists|i: int|
                    0 <= i < coords@.len() && k == coords@[i].0 * old(self)@.width + coords@[i].1) {
                    Cell::Alive
                } else {
                    old(self)@.cells[k]
                }),
    {
        let ghost orig = self@;
        let n = coords.len();
        let mut i: usize = 0;
        while i < n
            invariant
                orig.wf(),
                self@.wf(),
                self@.width == orig.width,
                self@.height == orig.height,
                self@.cells.len() == orig.cells.len(),
                n == coords@.len(),
                i <= n,
                forall|j: int|
                    0 <= j < n ==> coords@[j].0 < orig.height && coords@[j].1 < orig.width,
                forall|k: int|
                    0 <= k < self@.cells.len() ==> self@.cells[k] == (
                    if (exists|j: int|
                        0 <= j < i && k == coords@[j].0 * orig.width + coords@[j].1) {
                        Cell::Alive
                    } else {
                        orig.cells[k]
                    }),
            decreases n - i,
        {
            let rc = coords[i];
            let idx = self.get_index(rc.0, rc.1);
            self.cells.set(idx, Cell::Alive);
            i = i + 1;
        }
    }

    /// Line-per-row, character-per-cell snapshot of the grid: one glyph per
    /// cell, each row closed with a newline.
    pub fn render(&self) -> (out: String)
        requires
            self@.wf(),
        ensures
            out@ == rendered_grid(self@.cells, self@.width, self@.height),
    {
        let w = self.width;
        let h = self.height;
        let mut out = String::new();
        let mut row: u32 = 0;
        proof {
            assert(out@ =~= rendered_grid(self@.cells, w as int, 0));
        }
        while row < h
            invariant
                self@.wf(),
                w == self@.width,
                h == self@.height,
                row <= h,
                out@ == rendered_grid(self@.cells, w as int, row as int),
            decreases h - row,
        {
            let mut col: u32 = 0;
            proof {
                assert(out@ =~= rendered_grid(self@.cells, w as int, row as int) + rendered_row(
                    self@.cells,
                    w as int,
                    row as int,
                    0,
                ));
            }
            while col < w
                invariant
                    self@.wf(),
                    w == self@.width,
                    h == self@.height,
                    row < h,
                    col <= w,
                    out@ == rendered_grid(self@.cells, w as int, row as int) + rendered_row(
                        self@.cells,
                        w as int,
                        row as int,
                        col as int,
                    ),
                decreases w - col,
            {
                let idx = self.get_index(row, col);
                let cur = self.cells[idx];
                match cur {
                    Cell::Alive => out.append("◼"),
                    Cell::Dead => out.append("◻"),
                }
                proof {
                    reveal_strlit("◼");
                    reveal_strlit("◻");
                    assert(("◼")@ =~= glyph(Cell::Alive));
                    assert(("◻")@ =~= glyph(Cell::Dead));
                    assert(out@ =~= rendered_grid(self@.cells, w as int, row as int)
                        + rendered_row(self@.cells, w as int, row as int, col as int + 1));
                }
                col = col + 1;
            }
            out.append("\n");
            proof {
                reveal_strlit("\n");
                assert(("\n")@ =~= seq!['\n']);
                assert(out@ =~= rendered_grid(self@.cells, w as int, row as int + 1));
            }
            row = row + 1;
        }
        out
    }
}

} // verus!
