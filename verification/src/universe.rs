//! The simulator itself: a `width x height` toroidal grid of cells and the
//! operations that read, edit, resize, render and advance it.

use vstd::prelude::*;
use crate::cell::{toggled, Cell};
use crate::model::{
    cell_at, glyph, grid_wf, lemma_index_in_range, live, neighbor_count, next_cell, render_pos,
    seed_cell, step,
};

verus! {

/// The default edge length of a freshly constructed universe.
pub const DEFAULT_SIZE: u32 = 128;

/// A toroidal Game of Life grid.
///
/// The cells are stored in one flat buffer in row-major order: the cell at
/// row `r`, column `c` sits at index `r * width + c`. The buffer always
/// holds exactly `width * height` cells.
pub struct Universe {
    width: u32,
    height: u32,
    cells: Vec<Cell>,
}

/// The mathematical value of a universe: its cell sequence and dimensions.
pub ghost struct Grid {
    pub cells: Seq<Cell>,
    pub width: int,
    pub height: int,
}

impl View for Universe {
    type V = Grid;

    closed spec fn view(&self) -> Grid {
        Grid { cells: self.cells@, width: self.width as int, height: self.height as int }
    }
}

impl Universe {
    /// The invariant every universe satisfies: positive dimensions whose
    /// product fits the index arithmetic, and a buffer of exactly
    /// `width * height` cells.
    pub open spec fn wf(&self) -> bool {
        grid_wf(self@.cells, self@.width, self@.height)
    }

    /// Constructs the default `128 x 128` universe carrying the seed
    /// pattern: cell `i` starts alive exactly when `i % 2 == 0` or
    /// `i % 9 == 0`.
    pub fn new() -> (u: Universe)
        ensures
            u.wf(),
            u@.width == DEFAULT_SIZE,
            u@.height == DEFAULT_SIZE,
            forall|i: int| 0 <= i < u@.cells.len() ==> u@.cells[i] == seed_cell(i),
    {
        let total: u32 = DEFAULT_SIZE * DEFAULT_SIZE;
        let mut cells: Vec<Cell> = Vec::new();
        let mut i: u32 = 0;
        while i < total
            invariant
                i <= total,
                total == DEFAULT_SIZE * DEFAULT_SIZE,
                cells@.len() == i,
                forall|k: int| 0 <= k < i ==> cells@[k] == seed_cell(k),
            decreases total - i,
        {
            if i % 2 == 0 || i % 9 == 0 {
                cells.push(Cell::Alive);
            } else {
                cells.push(Cell::Dead);
            }
            i = i + 1;
        }
        Universe { width: DEFAULT_SIZE, height: DEFAULT_SIZE, cells }
    }

    /// A buffer of `n` dead cells.
    fn dead_cells(n: u32) -> (cells: Vec<Cell>)
        ensures
            cells@.len() == n,
            forall|k: int| 0 <= k < n ==> cells@[k] == Cell::Dead,
    {
        let mut cells: Vec<Cell> = Vec::new();
        let mut i: u32 = 0;
        while i < n
            invariant
                i <= n,
                cells@.len() == i,
                forall|k: int| 0 <= k < i ==> cells@[k] == Cell::Dead,
            decreases n - i,
        {
            cells.push(Cell::Dead);
            i = i + 1;
        }
        cells
    }

    /// Resizes the grid to the given width and resets every cell to `Dead`,
    /// whatever the grid held before.
    pub fn set_width(&mut self, width: u32)
        requires
            old(self).wf(),
            1 <= width,
            width * old(self)@.height <= u32::MAX,
        ensures
            final(self).wf(),
            final(self)@.width == width,
            final(self)@.height == old(self)@.height,
            final(self)@.cells.len() == width * old(self)@.height,
            forall|i: int|
                0 <= i < final(self)@.cells.len() ==> final(self)@.cells[i] == Cell::Dead,
    {
        self.width = width;
        self.cells = Self::dead_cells(width * self.height);
    }

    /// Resizes the grid to the given height and resets every cell to `Dead`,
    /// whatever the grid held before.
    pub fn set_height(&mut self, height: u32)
        requires
            old(self).wf(),
            1 <= height,
            old(self)@.width * height <= u32::MAX,
        ensures
            final(self).wf(),
            final(self)@.width == old(self)@.width,
            final(self)@.height == height,
            final(self)@.cells.len() == old(self)@.width * height,
            forall|i: int|
                0 <= i < final(self)@.cells.len() ==> final(self)@.cells[i] == Cell::Dead,
    {
        self.height = height;
        self.cells = Self::dead_cells(self.width * height);
    }

    /// Marks every listed `(row, col)` coordinate as `Alive`; cells not
    /// listed keep their state.
    pub fn set_cells(&mut self, cells: &[(u32, u32)])
        requires
            old(self).wf(),
            forall|k: int|
                0 <= k < cells@.len() ==> (#[trigger] cells@[k]).0 < old(self)@.height
                    && cells@[k].1 < old(self)@.width,
        ensures
            final(self).wf(),
            final(self)@.width == old(self)@.width,
            final(self)@.height == old(self)@.height,
            final(self)@.cells.len() == old(self)@.cells.len(),
            forall|t: int|
                0 <= t < final(self)@.cells.len() ==> final(self)@.cells[t] == (
                if exists|k: int|
                    0 <= k < cells@.len() && (#[trigger] cells@[k]).0 * old(self)@.width
                        + cells@[k].1 == t {
                    Cell::Alive
                } else {
                    old(self)@.cells[t]
                }),
    {
        let ghost g0 = self@;
        let mut k: usize = 0;
        while k < cells.len()
            invariant
                self.wf(),
                self@.width == g0.width,
                self@.height == g0.height,
                self@.cells.len() == g0.cells.len(),
                k <= cells@.len(),
                forall|j: int|
                    0 <= j < cells@.len() ==> (#[trigger] cells@[j]).0 < g0.height
                        && cells@[j].1 < g0.width,
                forall|t: int|
                    0 <= t < self@.cells.len() ==> self@.cells[t] == (
                    if exists|j: int|
                        0 <= j < k && (#[trigger] cells@[j]).0 * g0.width + cells@[j].1 == t {
                        Cell::Alive
                    } else {
                        g0.cells[t]
                    }),
            decreases cells@.len() - k,
        {
            let (r, c) = cells[k];
            let idx = self.get_index(r, c);
            self.cells[idx] = Cell::Alive;
            k = k + 1;
        }
    }

    /// The grid's width.
    pub fn width(&self) -> (w: u32)
        ensures
            w as int == self@.width,
    {
        self.width
    }

    /// The grid's height.
    pub fn height(&self) -> (h: u32)
        ensures
            h as int == self@.height,
    {
        self.height
    }

    /// Read-only access to the whole cell buffer, row-major.
    pub fn cells(&self) -> (r: &[Cell])
        ensures
            r@ == self@.cells,
    {
        self.cells.as_slice()
    }

    /// Read-only access to the whole cell buffer, row-major.
    pub fn get_cells(&self) -> (r: &[Cell])
        ensures
            r@ == self@.cells,
    {
        self.cells.as_slice()
    }

    /// The linear index of the cell at row `row`, column `col`:
    /// `row * width + col`.
    pub fn get_index(&self, row: u32, col: u32) -> (idx: usize)
        requires
            self.wf(),
            row < self@.height,
            col < self@.width,
        ensures
            idx == row * self@.width + col,
            idx < self@.cells.len(),
    {
        proof {
            lemma_index_in_range(row as int, col as int, self@.width, self@.height);
        }
        (row * self.width + col) as usize
    }

    /// The cell at row `row`, column `col`.
    fn get_cell(&self, row: u32, col: u32) -> (c: Cell)
        requires
            self.wf(),
            row < self@.height,
            col < self@.width,
        ensures
            c == cell_at(self@.cells, self@.width, row as int, col as int),
    {
        let idx = self.get_index(row, col);
        self.cells[idx]
    }

    /// A textual snapshot of the grid: one line per row, top to bottom,
    /// one character per cell (`+` alive, `.` dead), each row closed by a
    /// newline.
    pub fn render(&self) -> (r: String)
        requires
            self.wf(),
        ensures
            r@.len() == self@.height * (self@.width + 1),
            forall|i: int, j: int|
                0 <= i < self@.height && 0 <= j < self@.width ==> r@[#[trigger] render_pos(
                    self@.width,
                    i,
                    j,
                )] == glyph(cell_at(self@.cells, self@.width, i, j)),
            forall|i: int|
                0 <= i < self@.height ==> r@[#[trigger] render_pos(self@.width, i, self@.width)]
                    == '\n',
    {
        proof {
            reveal_strlit("+");
            reveal_strlit(".");
            reveal_strlit("\n");
        }
        let w = self.width;
        let h = self.height;
        let ghost line: int = w + 1;
        let mut s = String::new();
        let mut i: u32 = 0;
        while i < h
            invariant
                self.wf(),
                w == self@.width,
                h == self@.height,
                i <= h,
                s@.len() == i * line,
                line == w + 1,
                ("+")@ =~= seq!['+'],
                (".")@ =~= seq!['.'],
                ("\n")@ =~= seq!['\n'],
                forall|a: int, b: int|
                    0 <= a < i && 0 <= b < w ==> s@[#[trigger] render_pos(w as int, a, b)] == glyph(
                        cell_at(self@.cells, w as int, a, b),
                    ),
                forall|a: int| 0 <= a < i ==> s@[#[trigger] render_pos(w as int, a, w as int)] == '\n',
            decreases h - i,
        {
            let mut j: u32 = 0;
            while j < w
                invariant
                    self.wf(),
                    w == self@.width,
                    h == self@.height,
                    i < h,
                    j <= w,
                    s@.len() == i * line + j,
                    line == w + 1,
                    ("+")@ =~= seq!['+'],
                    (".")@ =~= seq!['.'],
                    ("\n")@ =~= seq!['\n'],
                    forall|a: int, b: int|
                        0 <= a < i && 0 <= b < w ==> s@[#[trigger] render_pos(w as int, a, b)]
                            == glyph(cell_at(self@.cells, w as int, a, b)),
                    forall|a: int|
                        0 <= a < i ==> s@[#[trigger] render_pos(w as int, a, w as int)] == '\n',
                    forall|b: int|
                        0 <= b < j ==> s@[#[trigger] render_pos(w as int, i as int, b)] == glyph(
                            cell_at(self@.cells, w as int, i as int, b),
                        ),
                decreases w - j,
            {
                let c = self.get_cell(i, j);
                if c == Cell::Alive {
                    s.append("+");
                } else {
                    s.append(".");
                }
                proof {
                    assert forall|a: int, b: int|
                        0 <= a < i && 0 <= b < w implies s@[#[trigger] render_pos(w as int, a, b)]
                        == glyph(cell_at(self@.cells, w as int, a, b)) by {
                        assert(0 <= a * line + b < i * line + j) by (nonlinear_arith)
                            requires
                                0 <= a < i,
                                0 <= b < w,
                                line == w + 1,
                                0 <= j,
                        ;
                    }
                    assert forall|a: int|
                        0 <= a < i implies s@[#[trigger] render_pos(w as int, a, w as int)]
                        == '\n' by {
                        assert(0 <= a * line + w < i * line + j) by (nonlinear_arith)
                            requires
                                0 <= a < i,
                                line == w + 1,
                                0 <= j,
                        ;
                    }
                }
                j = j + 1;
            }
            s.append("\n");
            proof {
                vstd::arithmetic::mul::lemma_mul_is_distributive_add(line, i as int, 1);
                assert((i + 1) * line == i * line + line) by (nonlinear_arith);
                assert(s@.len() == (i + 1) * line);
                assert(s@[i * line + w] == '\n');
                assert forall|a: int, b: int|
                    0 <= a < i + 1 && 0 <= b < w implies s@[#[trigger] render_pos(w as int, a, b)]
                    == glyph(cell_at(self@.cells, w as int, a, b)) by {
                    assert(0 <= a * line + b < i * line + w) by (nonlinear_arith)
                        requires
                            0 <= a <= i,
                            0 <= b < w,
                            line == w + 1,
                    ;
                }
                assert forall|a: int|
                    0 <= a < i + 1 implies s@[#[trigger] render_pos(w as int, a, w as int)]
                    == '\n' by {
                    assert(a < i ==> 0 <= a * line + w < i * line + w) by (nonlinear_arith)
                        requires
                            line == w + 1,
                            0 <= a,
                    ;
                }
            }
            i = i + 1;
        }
        s
    }

    /// The coordinate `(x + d) % m`, computed without overflow.
    fn wrap(x: u32, d: u32, m: u32) -> (r: u32)
        requires
            1 <= m,
        ensures
            r as int == (x + d) % (m as int),
            r < m,
    {
        (((x as u64) + (d as u64)) % (m as u64)) as u32
    }

    /// 1 for an alive cell, 0 for a dead one.
    fn live_val(c: Cell) -> (v: u8)
        ensures
            v as int == live(c),
    {
        match c {
            Cell::Alive => 1,
            Cell::Dead => 0,
        }
    }

    /// How many of the 8 neighbors of `(row, col)` are alive. Rows and
    /// columns wrap around the edges, so every cell has exactly 8 neighbors
    /// and the count is at most 8; the cell itself is not counted.
    pub fn live_neighbor_count(&self, row: u32, col: u32) -> (n: u8)
        requires
            self.wf(),
            row < self@.height,
            col < self@.width,
        ensures
            n as int == neighbor_count(self@.cells, self@.width, self@.height, row as int,
                col as int),
            n <= 8,
    {
        let w = self.width;
        let h = self.height;
        let rm = Self::wrap(row, h - 1, h);
        let rp = Self::wrap(row, 1, h);
        let cm = Self::wrap(col, w - 1, w);
        let cp = Self::wrap(col, 1, w);
        Self::live_val(self.get_cell(rm, cm)) + Self::live_val(self.get_cell(rm, col))
            + Self::live_val(self.get_cell(rm, cp)) + Self::live_val(self.get_cell(row, cm))
            + Self::live_val(self.get_cell(row, cp)) + Self::live_val(self.get_cell(rp, cm))
            + Self::live_val(self.get_cell(rp, col)) + Self::live_val(self.get_cell(rp, cp))
    }

    /// Advances the grid by one generation: every cell is replaced by its
    /// successor under the B3/S23 rule, with all neighbor counts taken
    /// against the pre-tick grid.
    pub fn tick(&mut self)
        requires
            old(self).wf(),
        ensures
            final(self).wf(),
            final(self)@.width == old(self)@.width,
            final(self)@.height == old(self)@.height,
            final(self)@.cells == step(old(self)@.cells, old(self)@.width, old(self)@.height),
    {
        let w = self.width;
        let h = self.height;
        let mut board: Vec<Cell> = Vec::new();
        let mut i: u32 = 0;
        while i < h
            invariant
                self == old(self),
                self.wf(),
                w == self@.width,
                h == self@.height,
                i <= h,
                board@.len() == i * w,
                forall|k: int|
                    0 <= k < board@.len() ==> board@[k] == next_cell(
                        self@.cells[k],
                        neighbor_count(self@.cells, w as int, h as int, k / (w as int),
                            k % (w as int)),
                    ),
            decreases h - i,
        {
            let mut j: u32 = 0;
            while j < w
                invariant
                    self == old(self),
                    self.wf(),
                    w == self@.width,
                    h == self@.height,
                    i < h,
                    j <= w,
                    board@.len() == i * w + j,
                    forall|k: int|
                        0 <= k < board@.len() ==> board@[k] == next_cell(
                            self@.cells[k],
                            neighbor_count(self@.cells, w as int, h as int, k / (w as int),
                                k % (w as int)),
                        ),
                decreases w - j,
            {
                let n = self.live_neighbor_count(i, j);
                let cell = self.get_cell(i, j);
                let next = match (cell, n) {
                    (Cell::Alive, x) if x < 2 => Cell::Dead,
                    (Cell::Alive, 2) | (Cell::Alive, 3) => Cell::Alive,
                    (Cell::Alive, x) if x > 3 => Cell::Dead,
                    (Cell::Dead, 3) => Cell::Alive,
                    (state, _) => state,
                };
                proof {
                    lemma_index_in_range(i as int, j as int, w as int, h as int);
                }
                board.push(next);
                j = j + 1;
            }
            proof {
                vstd::arithmetic::mul::lemma_mul_is_distributive_add_other_way(
                    w as int,
                    i as int,
                    1,
                );
            }
            i = i + 1;
        }
        proof {
            assert((h as int) * (w as int) == (w as int) * (h as int)) by (nonlinear_arith);
            assert forall|k: int|
                0 <= k < board@.len() implies board@[k] == step(self@.cells, w as int,
                h as int)[k] by {
                assert(step(self@.cells, w as int, h as int)[k] == next_cell(
                    self@.cells[k],
                    neighbor_count(self@.cells, w as int, h as int, k / (w as int), k % (w as int)),
                ));
            }
            assert(board@ =~= step(self@.cells, w as int, h as int));
        }
        self.cells = board;
    }

    /// Overwrites the cell at row `row`, column `col` with `state`; no other
    /// cell changes.
    pub fn set_cell(&mut self, row: u32, col: u32, state: Cell)
        requires
            old(self).wf(),
            row < old(self)@.height,
            col < old(self)@.width,
        ensures
            final(self).wf(),
            final(self)@.width == old(self)@.width,
            final(self)@.height == old(self)@.height,
            final(self)@.cells == old(self)@.cells.update(
                row * old(self)@.width + col,
                state,
            ),
    {
        let idx = self.get_index(row, col);
        self.cells[idx] = state;
    }

    /// Flips the cell at row `row`, column `col` between `Dead` and `Alive`;
    /// no other cell changes.
    pub fn toggle_cell(&mut self, row: u32, col: u32)
        requires
            old(self).wf(),
            row < old(self)@.height,
            col < old(self)@.width,
        ensures
            final(self).wf(),
            final(self)@.width == old(self)@.width,
            final(self)@.height == old(self)@.height,
            final(self)@.cells == old(self)@.cells.update(
                row * old(self)@.width + col,
                toggled(cell_at(old(self)@.cells, old(self)@.width, row as int, col as int)),
            ),
    {
        let idx = self.get_index(row, col);
        let mut c = self.cells[idx];
        c.toggle();
        self.cells[idx] = c;
    }
}

} // verus!
