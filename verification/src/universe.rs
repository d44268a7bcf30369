//! The `Universe` state machine: dimensions, the current and scratch bit
//! buffers, and the derived live-cell pixel-coordinate cache.

use crate::bitset::fbs_bits;
use crate::bitset::fbs_get;
use crate::bitset::fbs_len;
use crate::bitset::fbs_set;
use crate::bitset::fbs_with_capacity;
use crate::rules;
use fixedbitset::FixedBitSet;
use vstd::arithmetic::div_mod::lemma_fundamental_div_mod_converse;
use vstd::arithmetic::div_mod::lemma_multiply_divide_lt;
use vstd::prelude::*;

verus! {

/// Pixel coordinate of the center of cell row or column `i` when each cell
/// edge takes `cs` pixels plus a one-pixel gap.
pub open spec fn px(i: int, cs: int) -> int {
    i * (cs + 1) + cs / 2 + 1
}

/// Every pixel coordinate of a `w` by `h` grid with scale `cs` fits in a
/// `u32`, so the coordinate cache can be computed without overflow.
pub open spec fn coords_fit(w: int, h: int, cs: int) -> bool {
    &&& cs + 1 <= u32::MAX
    &&& (w == 0 || px(w - 1, cs) <= u32::MAX)
    &&& (h == 0 || px(h - 1, cs) <= u32::MAX)
}

proof fn lemma_px_mono(i: int, j: int, cs: int)
    requires
        0 <= i <= j,
        0 <= cs,
    ensures
        0 <= px(i, cs) <= px(j, cs),
    {
    assert(0 <= i * (cs + 1) <= j * (cs + 1)) by (nonlinear_arith)
        requires
            0 <= i <= j,
            0 <= cs,
    ;
}

/// The pixel coordinates of the live cells among the first `n` cells of grid
/// `g` (row-major, `w` columns): for each live cell, in index order, its x
/// then its y coordinate.
pub open spec fn positions_up_to(g: Seq<bool>, w: int, cs: int, n: int) -> Seq<u32>
    decreases n,
{
    if n <= 0 {
        Seq::empty()
    } else {
        positions_up_to(g, w, cs, n - 1) + if g[n - 1] {
            seq![px((n - 1) % w, cs) as u32, px((n - 1) / w, cs) as u32]
        } else {
            Seq::empty()
        }
    }
}

/// The full live-cell coordinate cache derived from grid `g`.
pub open spec fn positions_of(g: Seq<bool>, w: int, cs: int) -> Seq<u32> {
    positions_up_to(g, w, cs, g.len() as int)
}

/// The glyph a cell renders as.
pub open spec fn glyph(b: bool) -> char {
    if b {
        '◼'
    } else {
        '◻'
    }
}

/// The text rendering of the first `n` cells of grid `g`: one glyph per
/// cell in row-major order, with a newline after each full row of `w` cells.
pub open spec fn rendered_up_to(g: Seq<bool>, w: int, n: int) -> Seq<char>
    decreases n,
{
    if n <= 0 {
        Seq::empty()
    } else {
        rendered_up_to(g, w, n - 1) + seq![glyph(g[n - 1])] + if n % w == 0 {
            seq!['\n']
        } else {
            Seq::empty()
        }
    }
}

/// The full text rendering of grid `g`, `w` columns wide.
pub open spec fn rendered(g: Seq<bool>, w: int) -> Seq<char> {
    rendered_up_to(g, w, g.len() as int)
}

/// The delta the glider stamp uses at step `k` of a dimension of extent `n`:
/// one step back (as `n - 1`, wrapping), in place, one step forward.
pub open spec fn glider_delta(k: int, n: int) -> int {
    if k == 0 {
        n - 1
    } else if k == 1 {
        0
    } else {
        1
    }
}

/// The value the glider stamp writes at offset `(dr, dc)`: Alive for
/// `(0, 1)`, for `(1, _)` and for `(h - 1, 0)`, Dead for the rest.
pub open spec fn glider_value(dr: int, dc: int, h: int) -> bool {
    if (dr == 0 && dc == 1) || dr == 1 {
        true
    } else if dc == 0 && dr == h - 1 {
        true
    } else {
        false
    }
}

/// Grid `g` after the first `k` of the 9 writes of the glider stamp
/// anchored at `(row, col)`: the deltas go in row-major order over
/// `{h - 1, 0, 1} x {w - 1, 0, 1}`, wrap toroidally, and a later write to
/// the same cell wins.
pub open spec fn glider_stamp(g: Seq<bool>, row: int, col: int, w: int, h: int, k: int) -> Seq<
    bool,
>
    decreases k,
{
    if k <= 0 {
        g
    } else {
        let dr = glider_delta((k - 1) / 3, h);
        let dc = glider_delta((k - 1) % 3, w);
        glider_stamp(g, row, col, w, h, k - 1).update(
            rules::cell_index((row + dr) % h, (col + dc) % w, w),
            glider_value(dr, dc, h),
        )
    }
}

/// The two states a grid cell can take.
#[derive(Clone, Copy, Debug, PartialEq, Eq, Structural)]
pub enum Cell {
    Dead,
    Alive,
}

impl Cell {
    /// Flip the state: Dead becomes Alive and Alive becomes Dead.
    pub fn toggle(&mut self)
        ensures
            *final(self) == (match *old(self) {
                Cell::Dead => Cell::Alive,
                Cell::Alive => Cell::Dead,
            }),
    {
        *self = match *self {
            Cell::Dead => Cell::Alive,
            Cell::Alive => Cell::Dead,
        }
    }
}

/// The world state: grid dimensions, the current generation in `cells`, a
/// scratch buffer of the same length for the next generation, and the
/// derived pixel coordinates of the live cells.
pub struct Universe {
    width: u32,
    height: u32,
    cells: FixedBitSet,
    cells_bak: FixedBitSet,
    cells_position: Vec<u32>,
    cell_size: u32,
}

impl Universe {
    pub closed spec fn spec_width(self) -> u32 {
        self.width
    }

    pub closed spec fn spec_height(self) -> u32 {
        self.height
    }

    pub closed spec fn spec_cell_size(self) -> u32 {
        self.cell_size
    }

    /// The current generation, one `bool` per cell in row-major order.
    pub closed spec fn grid(self) -> Seq<bool> {
        fbs_bits(self.cells)
    }

    /// The scratch buffer's contents; never meaningful between ticks.
    pub closed spec fn scratch(self) -> Seq<bool> {
        fbs_bits(self.cells_bak)
    }

    /// The live-cell coordinate cache.
    pub closed spec fn positions(self) -> Seq<u32> {
        self.cells_position@
    }

    /// The number of cells.
    pub open spec fn size(self) -> int {
        self.spec_width() * self.spec_height()
    }

    /// Well-formedness: both buffers hold exactly one bit per cell, the cell
    /// count fits the `u32` index domain, and pixel coordinates fit a `u32`.
    pub open spec fn wf(self) -> bool {
        &&& self.grid().len() == self.size()
        &&& self.scratch().len() == self.size()
        &&& self.size() <= u32::MAX
        &&& coords_fit(
            self.spec_width() as int,
            self.spec_height() as int,
            self.spec_cell_size() as int,
        )
    }

    /// The state of the cell at `(row, col)` of the current generation.
    pub open spec fn alive(self, row: int, col: int) -> bool {
        rules::cell_at(self.grid(), self.spec_width() as int, row, col)
    }

    /// Build a universe whose cells are taken from `seed`, one draw per cell
    /// in row-major order, and whose coordinate cache already reflects them.
    /// The randomness that fills `seed` is the host's to supply: a cell is
    /// Alive exactly where its draw is `true`.
    pub fn new(width: u32, height: u32, cell_size: u32, seed: Vec<bool>) -> (u: Universe)
        requires
            width * height <= u32::MAX,
            seed@.len() == width * height,
            coords_fit(width as int, height as int, cell_size as int),
        ensures
            u.wf(),
            u.spec_width() == width,
            u.spec_height() == height,
            u.spec_cell_size() == cell_size,
            u.grid() == seed@,
            u.positions() == positions_of(seed@, width as int, cell_size as int),
    {
        let size: usize = (width * height) as usize;
        let mut cells = fbs_with_capacity(size);
        let cells_bak = fbs_with_capacity(size);
        let mut cells_position: Vec<u32> = Vec::new();
        for i in 0..size
            invariant
                size == width * height,
                size <= u32::MAX,
                seed@.len() == size,
                fbs_bits(cells).len() == size,
                forall|j: int| 0 <= j < i ==> fbs_bits(cells)[j] == seed@[j],
                cells_position@ == positions_up_to(
                    seed@,
                    width as int,
                    cell_size as int,
                    i as int,
                ),
                coords_fit(width as int, height as int, cell_size as int),
        {
            let state: bool = seed[i];
            fbs_set(&mut cells, i, state);
            if state {
                proof {
                    assert(width > 0) by (nonlinear_arith)
                        requires
                            i < size,
                            size == width * height,
                    ;
                    lemma_multiply_divide_lt(i as int, width as int, height as int);
                    lemma_px_mono(i as int % width as int, width as int - 1, cell_size as int);
                    lemma_px_mono(i as int / width as int, height as int - 1, cell_size as int);
                }
                let col: u32 = (i as u32) % width;
                let row: u32 = (i / (width as usize)) as u32;
                let x: u32 = col * (cell_size + 1) + cell_size / 2 + 1;
                let y: u32 = row * (cell_size + 1) + cell_size / 2 + 1;
                cells_position.push(x);
                cells_position.push(y);
                proof {
                    assert(cells_position@ =~= positions_up_to(
                        seed@,
                        width as int,
                        cell_size as int,
                        i + 1,
                    ));
                }
            }
        }
        proof {
            assert(fbs_bits(cells) =~= seed@);
        }
        Universe { width, height, cells, cells_bak, cells_position, cell_size }
    }

    /// Row-major index of `(row, column)` in the bit buffers.
    fn get_index(&self, row: u32, column: u32) -> (idx: usize)
        requires
            self.wf(),
            row < self.spec_height(),
            column < self.spec_width(),
        ensures
            idx == rules::cell_index(row as int, column as int, self.spec_width() as int),
            idx < self.size(),
    {
        proof {
            rules::lemma_cell_index_in_range(
                row as int,
                column as int,
                self.spec_width() as int,
                self.spec_height() as int,
            );
        }
        (row * self.width + column) as usize
    }

    /// Count the live cells among the 8 toroidal neighbors of
    /// `(row, column)`: exactly 8 lookups, wrapping at every edge.
    fn live_neighbor_count(&self, row: u32, column: u32) -> (count: u8)
        requires
            self.wf(),
            row < self.spec_height(),
            column < self.spec_width(),
        ensures
            count as int == rules::live_neighbors(
                self.grid(),
                self.spec_width() as int,
                self.spec_height() as int,
                row as int,
                column as int,
            ),
            count <= 8,
    {
        proof {
            rules::lemma_neighbor_indices_in_range(
                row as int,
                column as int,
                self.spec_width() as int,
                self.spec_height() as int,
            );
        }
        let mut count: u8 = 0;
        let north: u32 = if row == 0 {
            self.height - 1
        } else {
            row - 1
        };
        let south: u32 = if row == self.height - 1 {
            0
        } else {
            row + 1
        };
        let west: u32 = if column == 0 {
            self.width - 1
        } else {
            column - 1
        };
        let east: u32 = if column == self.width - 1 {
            0
        } else {
            column + 1
        };
        let nw: usize = self.get_index(north, west);
        if fbs_get(&self.cells, nw) {
            count += 1;
        }
        let n: usize = self.get_index(north, column);
        if fbs_get(&self.cells, n) {
            count += 1;
        }
        let ne: usize = self.get_index(north, east);
        if fbs_get(&self.cells, ne) {
            count += 1;
        }
        let w: usize = self.get_index(row, west);
        if fbs_get(&self.cells, w) {
            count += 1;
        }
        let e: usize = self.get_index(row, east);
        if fbs_get(&self.cells, e) {
            count += 1;
        }
        let sw: usize = self.get_index(south, west);
        if fbs_get(&self.cells, sw) {
            count += 1;
        }
        let s: usize = self.get_index(south, column);
        if fbs_get(&self.cells, s) {
            count += 1;
        }
        let se: usize = self.get_index(south, east);
        if fbs_get(&self.cells, se) {
            count += 1;
        }
        count
    }

    /// Flip exactly one cell of the current generation; everything else,
    /// the scratch buffer and the coordinate cache included, is untouched.
    pub fn toggle_cell(&mut self, row: u32, column: u32)
        requires
            old(self).wf(),
            row < old(self).spec_height(),
            column < old(self).spec_width(),
        ensures
            final(self).wf(),
            final(self).spec_width() == old(self).spec_width(),
            final(self).spec_height() == old(self).spec_height(),
            final(self).spec_cell_size() == old(self).spec_cell_size(),
            final(self).grid() == rules::toggled(
                old(self).grid(),
                rules::cell_index(row as int, column as int, old(self).spec_width() as int),
            ),
            final(self).scratch() == old(self).scratch(),
            final(self).positions() == old(self).positions(),
    {
        let idx: usize = self.get_index(row, column);
        if fbs_get(&self.cells, idx) {
            fbs_set(&mut self.cells, idx, false);
        } else {
            fbs_set(&mut self.cells, idx, true);
        }
    }

    /// Set every addressed cell Alive, clearing none: afterwards a cell is
    /// alive exactly when it was alive before or its coordinates are listed.
    pub fn set_cells(&mut self, cells: &[(u32, u32)])
        requires
            old(self).wf(),
            forall|k: int|
                0 <= k < cells@.len() ==> (#[trigger] cells@[k]).0 < old(self).spec_height()
                    && cells@[k].1 < old(self).spec_width(),
        ensures
            final(self).wf(),
            final(self).spec_width() == old(self).spec_width(),
            final(self).spec_height() == old(self).spec_height(),
            final(self).spec_cell_size() == old(self).spec_cell_size(),
            final(self).grid().len() == old(self).grid().len(),
            forall|i: int|
                0 <= i < old(self).size() ==> final(self).grid()[i] == (old(self).grid()[i]
                    || exists|k: int|
                    0 <= k < cells@.len() && i == rules::cell_index(
                        (#[trigger] cells@[k]).0 as int,
                        cells@[k].1 as int,
                        old(self).spec_width() as int,
                    )),
            final(self).scratch() == old(self).scratch(),
            final(self).positions() == old(self).positions(),
    {
        let ghost w = old(self).spec_width() as int;
        for k in 0..cells.len()
            invariant
                self.wf(),
                self.spec_width() == old(self).spec_width(),
                self.spec_height() == old(self).spec_height(),
                self.spec_cell_size() == old(self).spec_cell_size(),
                self.grid().len() == old(self).grid().len(),
                self.scratch() == old(self).scratch(),
                self.positions() == old(self).positions(),
                w == old(self).spec_width() as int,
                forall|j: int|
                    0 <= j < cells@.len() ==> (#[trigger] cells@[j]).0 < old(self).spec_height()
                        && cells@[j].1 < old(self).spec_width(),
                forall|i: int|
                    0 <= i < old(self).size() ==> self.grid()[i] == (old(self).grid()[i]
                        || exists|j: int|
                        0 <= j < k && i == rules::cell_index(
                            (#[trigger] cells@[j]).0 as int,
                            cells@[j].1 as int,
                            w,
                        )),
        {
            let (row, col) = cells[k];
            let idx: usize = self.get_index(row, col);
            let ghost prev = self.grid();
            fbs_set(&mut self.cells, idx, true);
            proof {
                assert forall|i: int| 0 <= i < old(self).size() implies self.grid()[i] == (old(
                    self,
                ).grid()[i] || exists|j: int|
                    0 <= j < k + 1 && i == rules::cell_index(
                        (#[trigger] cells@[j]).0 as int,
                        cells@[j].1 as int,
                        w,
                    )) by {
                    if i == idx {
                        assert((cells@[k as int]).0 == row && (cells@[k as int]).1 == col);
                        assert(0 <= k < k + 1 && i == rules::cell_index(
                            (cells@[k as int]).0 as int,
                            (cells@[k as int]).1 as int,
                            w,
                        ));
                    } else {
                        assert(self.grid()[i] == prev[i]);
                        if exists|j: int|
                            0 <= j < k + 1 && i == rules::cell_index(
                                (#[trigger] cells@[j]).0 as int,
                                cells@[j].1 as int,
                                w,
                            ) {
                            let j = choose|j: int|
                                0 <= j < k + 1 && i == rules::cell_index(
                                    (#[trigger] cells@[j]).0 as int,
                                    cells@[j].1 as int,
                                    w,
                                );
                            assert(j < k);
                        }
                    }
                }
            }
        }
    }

    /// Advance one generation. The next generation is computed into the
    /// scratch buffer from the current one alone, the coordinate cache is
    /// rebuilt for the cells that become alive, and the two buffers are
    /// swapped in O(1); the visible state is always a complete generation.
    pub fn tick(&mut self)
        requires
            old(self).wf(),
        ensures
            final(self).wf(),
            final(self).spec_width() == old(self).spec_width(),
            final(self).spec_height() == old(self).spec_height(),
            final(self).spec_cell_size() == old(self).spec_cell_size(),
            final(self).grid() == rules::next_gen(
                old(self).grid(),
                old(self).spec_width() as int,
                old(self).spec_height() as int,
            ),
            final(self).positions() == positions_of(
                final(self).grid(),
                old(self).spec_width() as int,
                old(self).spec_cell_size() as int,
            ),
            final(self).scratch() == old(self).grid(),
    {
        let ghost g0 = self.grid();
        let ghost w = self.spec_width() as int;
        let ghost h = self.spec_height() as int;
        let ghost cs = self.spec_cell_size() as int;
        let ghost ng = rules::next_gen(g0, w, h);
        let mut positions: Vec<u32> = Vec::new();
        let height: u32 = self.height;
        let width: u32 = self.width;
        proof {
            assert(0 * w == 0) by (nonlinear_arith);
            assert(positions@ =~= positions_up_to(ng, w, cs, 0));
        }
        for row in 0..height
            invariant
                width as int == w,
                height as int == h,
                self.wf(),
                self.grid() == g0,
                self.spec_width() as int == w,
                self.spec_height() as int == h,
                self.spec_cell_size() as int == cs,
                self.positions() == old(self).positions(),
                ng == rules::next_gen(g0, w, h),
                forall|i: int| 0 <= i < row * w ==> self.scratch()[i] == ng[i],
                positions@ == positions_up_to(ng, w, cs, row * w),
        {
            for col in 0..width
                invariant
                    width as int == w,
                    height as int == h,
                    self.wf(),
                    self.grid() == g0,
                    self.spec_width() as int == w,
                    self.spec_height() as int == h,
                    self.spec_cell_size() as int == cs,
                    self.positions() == old(self).positions(),
                    ng == rules::next_gen(g0, w, h),
                    row < h,
                    forall|i: int| 0 <= i < row * w + col ==> self.scratch()[i] == ng[i],
                    positions@ == positions_up_to(ng, w, cs, row * w + col),
            {
                let idx: usize = self.get_index(row, col);
                let cell: bool = fbs_get(&self.cells, idx);
                let live_neighbors: u8 = self.live_neighbor_count(row, col);
                let res: bool = if cell && live_neighbors < 2 {
                    false
                } else if cell && (live_neighbors == 2 || live_neighbors == 3) {
                    true
                } else if cell && live_neighbors > 3 {
                    false
                } else if !cell && live_neighbors == 3 {
                    true
                } else {
                    cell
                };
                proof {
                    lemma_fundamental_div_mod_converse(
                        row as int * w + col as int,
                        w,
                        row as int,
                        col as int,
                    );
                    assert(res == ng[idx as int]);
                }
                fbs_set(&mut self.cells_bak, idx, res);
                if res {
                    proof {
                        lemma_px_mono(col as int, w - 1, cs);
                        lemma_px_mono(row as int, h - 1, cs);
                    }
                    let x: u32 = col * (self.cell_size + 1) + self.cell_size / 2 + 1;
                    let y: u32 = row * (self.cell_size + 1) + self.cell_size / 2 + 1;
                    positions.push(x);
                    positions.push(y);
                }
                proof {
                    assert(positions@ =~= positions_up_to(ng, w, cs, row * w + col + 1));
                }
            }
            proof {
                assert((row + 1) * w == row * w + w) by (nonlinear_arith);
            }
        }
        proof {
            assert(h * w == w * h) by (nonlinear_arith);
            assert(self.scratch() =~= ng);
        }
        self.cells_position = positions;
        core::mem::swap(&mut self.cells, &mut self.cells_bak);
    }

    /// Recompute the live-cell coordinate cache from the current generation;
    /// the grid itself is untouched.
    pub fn cells_to_cells_positon(&mut self)
        requires
            old(self).wf(),
        ensures
            final(self).wf(),
            final(self).spec_width() == old(self).spec_width(),
            final(self).spec_height() == old(self).spec_height(),
            final(self).spec_cell_size() == old(self).spec_cell_size(),
            final(self).grid() == old(self).grid(),
            final(self).scratch() == old(self).scratch(),
            final(self).positions() == positions_of(
                old(self).grid(),
                old(self).spec_width() as int,
                old(self).spec_cell_size() as int,
            ),
    {
        let ghost g0 = self.grid();
        let ghost w = self.spec_width() as int;
        let ghost h = self.spec_height() as int;
        let ghost cs = self.spec_cell_size() as int;
        let mut positions: Vec<u32> = Vec::new();
        let height: u32 = self.height;
        let width: u32 = self.width;
        proof {
            assert(0 * w == 0) by (nonlinear_arith);
            assert(positions@ =~= positions_up_to(g0, w, cs, 0));
        }
        for row in 0..height
            invariant
                width as int == w,
                height as int == h,
                self.wf(),
                self.grid() == g0,
                self.spec_width() as int == w,
                self.spec_height() as int == h,
                self.spec_cell_size() as int == cs,
                positions@ == positions_up_to(g0, w, cs, row * w),
        {
            for col in 0..width
                invariant
                    width as int == w,
                    height as int == h,
                    self.wf(),
                    self.grid() == g0,
                    self.spec_width() as int == w,
                    self.spec_height() as int == h,
                    self.spec_cell_size() as int == cs,
                    row < h,
                    positions@ == positions_up_to(g0, w, cs, row * w + col),
            {
                let idx: usize = self.get_index(row, col);
                let cell: bool = fbs_get(&self.cells, idx);
                proof {
                    lemma_fundamental_div_mod_converse(
                        row as int * w + col as int,
                        w,
                        row as int,
                        col as int,
                    );
                }
                if cell {
                    proof {
                        lemma_px_mono(col as int, w - 1, cs);
                        lemma_px_mono(row as int, h - 1, cs);
                    }
                    let x: u32 = col * (self.cell_size + 1) + self.cell_size / 2 + 1;
                    let y: u32 = row * (self.cell_size + 1) + self.cell_size / 2 + 1;
                    positions.push(x);
                    positions.push(y);
                }
                proof {
                    assert(positions@ =~= positions_up_to(g0, w, cs, row * w + col + 1));
                }
            }
            proof {
                assert((row + 1) * w == row * w + w) by (nonlinear_arith);
            }
        }
        proof {
            assert(h * w == w * h) by (nonlinear_arith);
        }
        self.cells_position = positions;
    }

    /// Set every cell of the current generation Dead, in place; dimensions
    /// stay, and the coordinate cache is left as it was.
    pub fn clear(&mut self)
        requires
            old(self).wf(),
        ensures
            final(self).wf(),
            final(self).spec_width() == old(self).spec_width(),
            final(self).spec_height() == old(self).spec_height(),
            final(self).spec_cell_size() == old(self).spec_cell_size(),
            final(self).grid().len() == old(self).grid().len(),
            forall|i: int| 0 <= i < final(self).grid().len() ==> !final(self).grid()[i],
            final(self).scratch() == old(self).scratch(),
            final(self).positions() == old(self).positions(),
    {
        let size: usize = fbs_len(&self.cells);
        for i in 0..size
            invariant
                self.wf(),
                self.spec_width() == old(self).spec_width(),
                self.spec_height() == old(self).spec_height(),
                self.spec_cell_size() == old(self).spec_cell_size(),
                self.grid().len() == size,
                size == old(self).grid().len(),
                forall|j: int| 0 <= j < i ==> !self.grid()[j],
                self.scratch() == old(self).scratch(),
                self.positions() == old(self).positions(),
        {
            fbs_set(&mut self.cells, i, false);
        }
    }

    /// Destructive resize of the horizontal dimension: both bit buffers are
    /// reallocated at the new cell count with every cell Dead. The
    /// coordinate cache is left stale until the next tick or explicit
    /// recomputation.
    pub fn set_width(&mut self, width: u32)
        requires
            width * old(self).spec_height() <= u32::MAX,
            coords_fit(
                width as int,
                old(self).spec_height() as int,
                old(self).spec_cell_size() as int,
            ),
        ensures
            final(self).wf(),
            final(self).spec_width() == width,
            final(self).spec_height() == old(self).spec_height(),
            final(self).spec_cell_size() == old(self).spec_cell_size(),
            forall|i: int| 0 <= i < final(self).grid().len() ==> !final(self).grid()[i],
            final(self).positions() == old(self).positions(),
    {
        self.width = width;
        let size: usize = (width * self.height) as usize;
        self.cells = fbs_with_capacity(size);
        self.cells_bak = fbs_with_capacity(size);
    }

    /// Destructive resize of the vertical dimension: both bit buffers are
    /// reallocated at the new cell count with every cell Dead. The
    /// coordinate cache is left stale until the next tick or explicit
    /// recomputation.
    pub fn set_height(&mut self, height: u32)
        requires
            old(self).spec_width() * height <= u32::MAX,
            coords_fit(
                old(self).spec_width() as int,
                height as int,
                old(self).spec_cell_size() as int,
            ),
        ensures
            final(self).wf(),
            final(self).spec_width() == old(self).spec_width(),
            final(self).spec_height() == height,
            final(self).spec_cell_size() == old(self).spec_cell_size(),
            forall|i: int| 0 <= i < final(self).grid().len() ==> !final(self).grid()[i],
            final(self).positions() == old(self).positions(),
    {
        self.height = height;
        let size: usize = (self.width * height) as usize;
        self.cells = fbs_with_capacity(size);
        self.cells_bak = fbs_with_capacity(size);
    }

    /// Discard the whole state and construct afresh, as `new` would, with
    /// new dimensions and a new seed.
    pub fn reset(&mut self, width: u32, height: u32, cell_size: u32, seed: Vec<bool>)
        requires
            width * height <= u32::MAX,
            seed@.len() == width * height,
            coords_fit(width as int, height as int, cell_size as int),
        ensures
            final(self).wf(),
            final(self).spec_width() == width,
            final(self).spec_height() == height,
            final(self).spec_cell_size() == cell_size,
            final(self).grid() == seed@,
            final(self).positions() == positions_of(seed@, width as int, cell_size as int),
    {
        *self = Universe::new(width, height, cell_size, seed);
    }

    /// Stamp the 3-by-3 glider block anchored at `(row, column)`, wrapping
    /// toroidally: all nine cells of the block are overwritten, some Alive
    /// and the rest Dead, per the delta table of `glider_value`. On an
    /// empty grid there is nothing to stamp.
    pub fn set_glider(&mut self, row: u32, column: u32)
        requires
            old(self).wf(),
            old(self).spec_width() > 0 && old(self).spec_height() > 0 ==> row < old(
                self,
            ).spec_height() && column < old(self).spec_width(),
        ensures
            final(self).wf(),
            final(self).spec_width() == old(self).spec_width(),
            final(self).spec_height() == old(self).spec_height(),
            final(self).spec_cell_size() == old(self).spec_cell_size(),
            final(self).scratch() == old(self).scratch(),
            final(self).positions() == old(self).positions(),
            old(self).spec_width() == 0 || old(self).spec_height() == 0 ==> final(self).grid()
                == old(self).grid(),
            old(self).spec_width() > 0 && old(self).spec_height() > 0 ==> final(self).grid()
                == glider_stamp(
                old(self).grid(),
                row as int,
                column as int,
                old(self).spec_width() as int,
                old(self).spec_height() as int,
                9,
            ),
    {
        if self.width == 0 || self.height == 0 {
            return ;
        }
        let ghost g0 = self.grid();
        let ghost w = self.spec_width() as int;
        let ghost h = self.spec_height() as int;
        for kr in 0..3u32
            invariant
                self.wf(),
                self.spec_width() as int == w,
                self.spec_height() as int == h,
                self.spec_cell_size() == old(self).spec_cell_size(),
                self.scratch() == old(self).scratch(),
                self.positions() == old(self).positions(),
                w > 0,
                h > 0,
                row < h,
                column < w,
                self.grid() == glider_stamp(g0, row as int, column as int, w, h, 3 * kr),
        {
            for kc in 0..3u32
                invariant
                    self.wf(),
                    self.spec_width() as int == w,
                    self.spec_height() as int == h,
                    self.spec_cell_size() == old(self).spec_cell_size(),
                    self.scratch() == old(self).scratch(),
                    self.positions() == old(self).positions(),
                    w > 0,
                    h > 0,
                    row < h,
                    column < w,
                    kr < 3,
                    self.grid() == glider_stamp(
                        g0,
                        row as int,
                        column as int,
                        w,
                        h,
                        3 * kr + kc,
                    ),
            {
                let delta_row: u32 = if kr == 0 {
                    self.height - 1
                } else if kr == 1 {
                    0
                } else {
                    1
                };
                let delta_col: u32 = if kc == 0 {
                    self.width - 1
                } else if kc == 1 {
                    0
                } else {
                    1
                };
                let neighbor_row: u32 = ((row as u64 + delta_row as u64) % (self.height
                    as u64)) as u32;
                let neighbor_col: u32 = ((column as u64 + delta_col as u64) % (self.width
                    as u64)) as u32;
                let idx: usize = self.get_index(neighbor_row, neighbor_col);
                let enabled: bool = if (delta_row == 0 && delta_col == 1) || delta_row == 1 {
                    true
                } else if delta_col == 0 && delta_row == self.height - 1 {
                    true
                } else {
                    false
                };
                fbs_set(&mut self.cells, idx, enabled);
                proof {
                    lemma_fundamental_div_mod_converse(
                        3 * kr + kc,
                        3,
                        kr as int,
                        kc as int,
                    );
                    assert(self.grid() =~= glider_stamp(
                        g0,
                        row as int,
                        column as int,
                        w,
                        h,
                        3 * kr + kc + 1,
                    ));
                }
            }
        }
    }

    /// The textual rendering of the current generation: one glyph per cell
    /// in row-major order, a filled square for Alive and an open square for
    /// Dead, with a newline closing each full row.
    pub fn render(&self) -> (r: String)
        requires
            self.wf(),
        ensures
            r@ == rendered(self.grid(), self.spec_width() as int),
    {
        let ghost g = self.grid();
        let ghost w = self.spec_width() as int;
        let ghost h = self.spec_height() as int;
        let mut r: String = String::new();
        let size: usize = fbs_len(&self.cells);
        proof {
            assert(r@ =~= rendered_up_to(g, w, 0));
        }
        for idx in 0..size
            invariant
                self.wf(),
                self.grid() == g,
                self.spec_width() as int == w,
                self.spec_height() as int == h,
                size == g.len(),
                r@ == rendered_up_to(g, w, idx as int),
        {
            proof {
                assert(w > 0) by (nonlinear_arith)
                    requires
                        idx < size,
                        size == w * h,
                        0 <= w,
                        0 <= h,
                ;
                reveal_strlit("◼");
                reveal_strlit("◻");
                reveal_strlit("\n");
            }
            let cell: bool = fbs_get(&self.cells, idx);
            if cell {
                r.append("◼");
            } else {
                r.append("◻");
            }
            proof {
                assert(r@ =~= rendered_up_to(g, w, idx as int) + seq![glyph(g[idx as int])]);
            }
            if ((idx + 1) as u32) % self.width == 0 {
                r.append("\n");
            }
            proof {
                assert(r@ =~= rendered_up_to(g, w, idx as int + 1));
            }
        }
        r
    }

    pub fn width(&self) -> (r: u32)
        ensures
            r == self.spec_width(),
    {
        self.width
    }

    pub fn height(&self) -> (r: u32)
        ensures
            r == self.spec_height(),
    {
        self.height
    }

    pub fn cell_size(&self) -> (r: u32)
        ensures
            r == self.spec_cell_size(),
    {
        self.cell_size
    }

    /// The current generation's bit buffer, one bit per cell in row-major
    /// order; a read-only snapshot, valid until the next mutating call.
    pub fn get_cells(&self) -> (r: &FixedBitSet)
        ensures
            fbs_bits(*r) == self.grid(),
    {
        &self.cells
    }

    /// The same buffer, under the accessor name the host renderer uses.
    pub fn cells(&self) -> (r: &FixedBitSet)
        ensures
            fbs_bits(*r) == self.grid(),
    {
        &self.cells
    }

    /// The live-cell coordinate cache: x and y pixel coordinates, one pair
    /// per live cell, as of the last tick or explicit recomputation.
    pub fn cells_position(&self) -> (r: &Vec<u32>)
        ensures
            r@ == self.positions(),
    {
        &self.cells_position
    }

    /// The length of the coordinate cache.
    pub fn cells_position_len(&self) -> (r: u32)
        ensures
            self.positions().len() <= u32::MAX ==> r == self.positions().len(),
    {
        #[verifier::truncate] (self.cells_position.len() as u32)
    }
}

} // verus!
