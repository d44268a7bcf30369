//! The mathematical model of the automaton: row-major addressing, toroidal
//! neighborhoods, the birth/survival rule, and the whole-grid step function.
//! A grid is a `Seq<bool>` of length `width * height`; `true` is Alive.

use vstd::prelude::*;

verus! {

/// Row-major index of the cell at `(row, col)` on a grid `w` columns wide.
pub open spec fn cell_index(row: int, col: int, w: int) -> int {
    row * w + col
}

/// The cell at `(row, col)` of grid `g`, `w` columns wide.
pub open spec fn cell_at(g: Seq<bool>, w: int, row: int, col: int) -> bool {
    g[cell_index(row, col, w)]
}

/// The coordinate one step toward zero, wrapping to `n - 1` at the edge:
/// the row above, or the column to the west.
pub open spec fn wrap_dec(i: int, n: int) -> int {
    if i == 0 {
        n - 1
    } else {
        i - 1
    }
}

/// The coordinate one step away from zero, wrapping to `0` at the edge:
/// the row below, or the column to the east.
pub open spec fn wrap_inc(i: int, n: int) -> int {
    if i == n - 1 {
        0
    } else {
        i + 1
    }
}

pub open spec fn b2i(b: bool) -> int {
    if b {
        1
    } else {
        0
    }
}

/// How many of the 8 toroidal Moore neighbors of `(row, col)` are alive on a
/// `w` by `h` grid: the neighborhood wraps at all four edges.
pub open spec fn live_neighbors(g: Seq<bool>, w: int, h: int, row: int, col: int) -> int {
    b2i(cell_at(g, w, wrap_dec(row, h), wrap_dec(col, w))) + b2i(
        cell_at(g, w, wrap_dec(row, h), col),
    ) + b2i(cell_at(g, w, wrap_dec(row, h), wrap_inc(col, w))) + b2i(
        cell_at(g, w, row, wrap_dec(col, w)),
    ) + b2i(cell_at(g, w, row, wrap_inc(col, w))) + b2i(
        cell_at(g, w, wrap_inc(row, h), wrap_dec(col, w)),
    ) + b2i(cell_at(g, w, wrap_inc(row, h), col)) + b2i(
        cell_at(g, w, wrap_inc(row, h), wrap_inc(col, w)),
    )
}

/// The standard Game-of-Life rule: a live cell survives with 2 or 3 live
/// neighbors, a dead cell is born with exactly 3, everything else dies or
/// stays dead.
pub open spec fn next_state(alive: bool, n: int) -> bool {
    if alive {
        n == 2 || n == 3
    } else {
        n == 3
    }
}

/// One full generation: every cell of the new grid is `next_state` of the old
/// cell and its neighbor count, both taken from the old grid alone.
pub open spec fn next_gen(g: Seq<bool>, w: int, h: int) -> Seq<bool> {
    Seq::new((w * h) as nat, |i: int| next_state(g[i], live_neighbors(g, w, h, i / w, i % w)))
}

/// Grid `g` with the cell at index `i` flipped.
pub open spec fn toggled(g: Seq<bool>, i: int) -> Seq<bool> {
    g.update(i, !g[i])
}

/// Row-major indexing stays inside the grid: a cell with in-range row and
/// column has an index in `[0, w * h)`.
pub proof fn lemma_cell_index_in_range(row: int, col: int, w: int, h: int)
    requires
        0 <= row < h,
        0 <= col < w,
    ensures
        0 <= cell_index(row, col, w) < w * h,
    {
    assert(0 <= row * w + col < w * h) by (nonlinear_arith)
        requires
            0 <= row < h,
            0 <= col < w,
    ;
}

/// Toroidal wrap correctness: for any in-range cell, each of the 8 neighbor
/// coordinates is itself in range, so all 8 neighbor indices lie in
/// `[0, w * h)`; and the wrap is the toroidal one: row 0 looks up row
/// `h - 1` and row `h - 1` looks up row 0, and likewise for columns.
pub proof fn lemma_neighbor_indices_in_range(row: int, col: int, w: int, h: int)
    requires
        0 <= row < h,
        0 <= col < w,
    ensures
        0 <= wrap_dec(row, h) < h,
        0 <= wrap_inc(row, h) < h,
        0 <= wrap_dec(col, w) < w,
        0 <= wrap_inc(col, w) < w,
        row == 0 ==> wrap_dec(row, h) == h - 1,
        row == h - 1 ==> wrap_inc(row, h) == 0,
        col == 0 ==> wrap_dec(col, w) == w - 1,
        col == w - 1 ==> wrap_inc(col, w) == 0,
        forall|r: int, c: int|
            (r == wrap_dec(row, h) || r == row || r == wrap_inc(row, h)) && (c == wrap_dec(col, w)
                || c == col || c == wrap_inc(col, w)) ==> 0 <= #[trigger] cell_index(r, c, w) < w
                * h,
    {
    assert forall|r: int, c: int|
        (r == wrap_dec(row, h) || r == row || r == wrap_inc(row, h)) && (c == wrap_dec(col, w)
            || c == col || c == wrap_inc(col, w)) implies 0 <= #[trigger] cell_index(r, c, w) < w
        * h by {
        lemma_cell_index_in_range(r, c, w, h);
    }
}

/// Rule correctness, the exhaustive table: for every combination of current
/// state and neighbor count, `next_state` agrees with the five clauses of
/// the standard rule.
pub proof fn lemma_rule_table(alive: bool, n: int)
    requires
        0 <= n <= 8,
    ensures
        alive && n < 2 ==> !next_state(alive, n),
        alive && (n == 2 || n == 3) ==> next_state(alive, n),
        alive && n > 3 ==> !next_state(alive, n),
        !alive && n == 3 ==> next_state(alive, n),
        !alive && n != 3 ==> next_state(alive, n) == alive,
    {
}

/// Generation isolation: every cell of the next generation is a function of
/// the previous grid alone — its own old value and its old neighbor counts —
/// never of values already computed for other cells, so computing the
/// generation in any traversal order gives the same grid.
pub proof fn lemma_generation_isolation(g: Seq<bool>, w: int, h: int, i: int)
    requires
        0 <= i < w * h,
    ensures
        next_gen(g, w, h)[i] == next_state(g[i], live_neighbors(g, w, h, i / w, i % w)),
    {
}

/// Toggle involution: flipping the same cell twice restores the grid.
pub proof fn lemma_toggle_involution(g: Seq<bool>, i: int)
    requires
        0 <= i < g.len(),
    ensures
        toggled(toggled(g, i), i) == g,
    {
    assert(toggled(toggled(g, i), i) =~= g);
}

} // verus!
