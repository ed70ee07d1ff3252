//! The mathematical model of the grid: how coordinates map to the flat
//! buffer, what the toroidal neighborhood of a cell is, and what one
//! generation step produces.

use vstd::prelude::*;
use crate::cell::Cell;

verus! {

/// The seed value of cell `i` in a freshly constructed universe: alive
/// exactly when `i` is divisible by 2 or by 9.
pub open spec fn seed_cell(i: int) -> Cell {
    if i % 2 == 0 || i % 9 == 0 {
        Cell::Alive
    } else {
        Cell::Dead
    }
}

/// 1 for an alive cell, 0 for a dead one.
pub open spec fn live(c: Cell) -> int {
    if c == Cell::Alive {
        1
    } else {
        0
    }
}

/// A well-formed grid: positive dimensions, a product that fits the index
/// arithmetic, and a buffer of exactly `width * height` cells.
pub open spec fn grid_wf(cells: Seq<Cell>, w: int, h: int) -> bool {
    &&& 1 <= w
    &&& 1 <= h
    &&& w * h <= u32::MAX
    &&& cells.len() == w * h
}

/// The cell of a row-major grid of width `w` at row `r`, column `c`.
pub open spec fn cell_at(cells: Seq<Cell>, w: int, r: int, c: int) -> Cell {
    cells[r * w + c]
}

/// The coordinate one step before `x` on a cycle of length `m`,
/// written as the wrapping offset `m - 1`.
pub open spec fn dec1(x: int, m: int) -> int {
    (x + m - 1) % m
}

/// The coordinate one step after `x` on a cycle of length `m`.
pub open spec fn inc1(x: int, m: int) -> int {
    (x + 1) % m
}

/// The branch form of the wrapping predecessor: `m - 1` at 0, else
/// `x - 1`. Equal to `dec1` on in-range coordinates.
pub open spec fn wrap_dec(x: int, m: int) -> int {
    if x == 0 {
        m - 1
    } else {
        x - 1
    }
}

/// The branch form of the wrapping successor: 0 at `m - 1`, else `x + 1`.
/// Equal to `inc1` on in-range coordinates.
pub open spec fn wrap_inc(x: int, m: int) -> int {
    if x == m - 1 {
        0
    } else {
        x + 1
    }
}

/// How many of the 8 toroidally wrapped neighbors of `(r, c)` are alive.
/// The cell itself is not counted.
pub open spec fn neighbor_count(cells: Seq<Cell>, w: int, h: int, r: int, c: int) -> int {
    live(cell_at(cells, w, dec1(r, h), dec1(c, w)))
        + live(cell_at(cells, w, dec1(r, h), c))
        + live(cell_at(cells, w, dec1(r, h), inc1(c, w)))
        + live(cell_at(cells, w, r, dec1(c, w)))
        + live(cell_at(cells, w, r, inc1(c, w)))
        + live(cell_at(cells, w, inc1(r, h), dec1(c, w)))
        + live(cell_at(cells, w, inc1(r, h), c))
        + live(cell_at(cells, w, inc1(r, h), inc1(c, w)))
}

/// The B3/S23 transition rule: what a cell in state `c` with `n` live
/// neighbors becomes in the next generation.
pub open spec fn next_cell(c: Cell, n: int) -> Cell {
    match c {
        Cell::Alive => if n < 2 {
            Cell::Dead
        } else if n <= 3 {
            Cell::Alive
        } else {
            Cell::Dead
        },
        Cell::Dead => if n == 3 {
            Cell::Alive
        } else {
            Cell::Dead
        },
    }
}

/// One generation step of a whole `w x h` grid: every cell is replaced by
/// its successor under the rule, judged against the pre-step grid.
pub open spec fn step(cells: Seq<Cell>, w: int, h: int) -> Seq<Cell> {
    Seq::new((w * h) as nat, |k: int| next_cell(cells[k], neighbor_count(cells, w, h, k / w, k % w)))
}

/// The row-major grid of dimensions `w x h` whose cell at `(r, c)` is
/// `f(r, c)`.
pub open spec fn grid_of(w: int, h: int, f: spec_fn(int, int) -> Cell) -> Seq<Cell> {
    Seq::new((w * h) as nat, |k: int| f(k / w, k % w))
}

/// The index, in the rendered text of a grid of width `w`, of the
/// character for column `j` of row `i`; column `w` is the newline that
/// closes the row.
pub open spec fn render_pos(w: int, i: int, j: int) -> int {
    i * (w + 1) + j
}

/// The character that renders one cell: `+` for alive, `.` for dead.
pub open spec fn glyph(c: Cell) -> char {
    if c == Cell::Alive {
        '+'
    } else {
        '.'
    }
}

/// A row-major index `r * w + c` with `(r, c)` in range lies strictly
/// below `h * w`.
pub proof fn lemma_index_in_range(r: int, c: int, w: int, h: int)
    requires
        1 <= w,
        1 <= h,
        0 <= r < h,
        0 <= c < w,
    ensures
        0 <= r * w + c < h * w,
        (r * w + c) / w == r,
        (r * w + c) % w == c,
{
    assert(0 <= r * w + c < h * w) by (nonlinear_arith)
        requires
            1 <= w,
            1 <= h,
            0 <= r < h,
            0 <= c < w,
    ;
    vstd::arithmetic::div_mod::lemma_fundamental_div_mod_converse(r * w + c, w, r, c);
}

/// The wrapping predecessor written with `%` equals its branch form.
pub proof fn lemma_dec1_eval(x: int, m: int)
    requires
        1 <= m,
        0 <= x < m,
    ensures
        dec1(x, m) == wrap_dec(x, m),
        0 <= dec1(x, m) < m,
{
    if x == 0 {
        vstd::arithmetic::div_mod::lemma_small_mod((m - 1) as nat, m as nat);
    } else {
        vstd::arithmetic::div_mod::lemma_mod_multiples_vanish(1, x - 1, m);
        vstd::arithmetic::div_mod::lemma_small_mod((x - 1) as nat, m as nat);
    }
}

/// The wrapping successor written with `%` equals its branch form.
pub proof fn lemma_inc1_eval(x: int, m: int)
    requires
        1 <= m,
        0 <= x < m,
    ensures
        inc1(x, m) == wrap_inc(x, m),
        0 <= inc1(x, m) < m,
{
    if x == m - 1 {
        vstd::arithmetic::div_mod::lemma_mod_self_0(m);
    } else {
        vstd::arithmetic::div_mod::lemma_small_mod((x + 1) as nat, m as nat);
    }
}

/// The neighbor count of `(r, c)` in the grid described by the pattern
/// `f`, written over the branch forms of the wrapped coordinates.
pub open spec fn pattern_neighbor_count(
    f: spec_fn(int, int) -> Cell,
    w: int,
    h: int,
    r: int,
    c: int,
) -> int {
    live(f(wrap_dec(r, h), wrap_dec(c, w))) + live(f(wrap_dec(r, h), c)) + live(
        f(wrap_dec(r, h), wrap_inc(c, w)),
    ) + live(f(r, wrap_dec(c, w))) + live(f(r, wrap_inc(c, w))) + live(
        f(wrap_inc(r, h), wrap_dec(c, w)),
    ) + live(f(wrap_inc(r, h), c)) + live(f(wrap_inc(r, h), wrap_inc(c, w)))
}

/// Reading `grid_of(w, h, f)` at any in-range `(r, c)` gives `f(r, c)`.
pub proof fn lemma_grid_of_at(w: int, h: int, f: spec_fn(int, int) -> Cell)
    requires
        1 <= w,
        1 <= h,
    ensures
        grid_of(w, h, f).len() == w * h,
        forall|r: int, c: int|
            0 <= r < h && 0 <= c < w ==> #[trigger] cell_at(grid_of(w, h, f), w, r, c) == f(r, c),
{
    assert forall|r: int, c: int|
        0 <= r < h && 0 <= c < w implies #[trigger] cell_at(grid_of(w, h, f), w, r, c) == f(
        r,
        c,
    ) by {
        lemma_index_in_range(r, c, w, h);
    }
}

/// The neighbor count of `(r, c)` in `grid_of(w, h, f)` equals the
/// pattern-level count written over `f` and the branch-form wrapped
/// coordinates.
pub proof fn lemma_neighbor_count_grid_of(
    w: int,
    h: int,
    f: spec_fn(int, int) -> Cell,
    r: int,
    c: int,
)
    requires
        1 <= w,
        1 <= h,
        0 <= r < h,
        0 <= c < w,
    ensures
        neighbor_count(grid_of(w, h, f), w, h, r, c) == pattern_neighbor_count(f, w, h, r, c),
{
    lemma_dec1_eval(r, h);
    lemma_inc1_eval(r, h);
    lemma_dec1_eval(c, w);
    lemma_inc1_eval(c, w);
    lemma_grid_of_at(w, h, f);
}

} // verus!
