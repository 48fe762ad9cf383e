//! The mathematical model of the grid: a row-major sequence of cells on a
//! torus, the neighbour count of a position and the step from one generation
//! to the next.
//!
//! Everything here is specification and proof. The executable engine states
//! its contracts over these definitions.

use crate::cell::Cell;
use vstd::arithmetic::div_mod::lemma_fundamental_div_mod_converse;
use vstd::prelude::*;

verus! {

/// A grid of `width` columns and `height` rows, its cells in row-major order.
pub struct Grid {
    pub width: nat,
    pub height: nat,
    pub cells: Seq<Cell>,
}

/// The position before `i` on a ring of `n` positions.
pub open spec fn wrap_prev(i: int, n: int) -> int {
    if i == 0 {
        n - 1
    } else {
        i - 1
    }
}

/// The position after `i` on a ring of `n` positions.
pub open spec fn wrap_next(i: int, n: int) -> int {
    if i == n - 1 {
        0
    } else {
        i + 1
    }
}

/// The state that seeding gives to the cell at flat index `i`.
pub open spec fn seed_cell(i: int) -> Cell {
    if i % 2 == 0 || i % 7 == 0 {
        Cell::Alive
    } else {
        Cell::Dead
    }
}

/// The glyph that a rendering shows for a cell.
pub open spec fn glyph(cell: Cell) -> char {
    match cell {
        Cell::Dead => '\u{25a1}',
        Cell::Alive => '\u{25a0}',
    }
}

/// `(row, col)` is one of the listed positions.
pub open spec fn lists(positions: Seq<(u32, u32)>, row: int, col: int) -> bool {
    exists|k: int|
        0 <= k < positions.len() && (#[trigger] positions[k]).0 == row && positions[k].1 == col
}

impl Grid {
    /// The cell sequence has exactly one cell per position.
    pub open spec fn wf(self) -> bool {
        self.cells.len() == self.width * self.height
    }

    /// `(row, col)` names a position of the grid.
    pub open spec fn in_bounds(self, row: int, col: int) -> bool {
        0 <= row < self.height && 0 <= col < self.width
    }

    /// The flat index of the position `(row, col)`.
    pub open spec fn index(self, row: int, col: int) -> int {
        row * self.width + col
    }

    /// The cell at `(row, col)`.
    pub open spec fn at(self, row: int, col: int) -> Cell {
        self.cells[self.index(row, col)]
    }

    /// 1 if the cell at `(row, col)` is alive, else 0.
    pub open spec fn alive(self, row: int, col: int) -> int {
        if self.at(row, col) == Cell::Alive {
            1
        } else {
            0
        }
    }

    /// The number of live cells among the eight neighbours of `(row, col)`,
    /// the grid wrapping round at its edges. On a grid of one row or one
    /// column a neighbour may be the same cell as another neighbour or as the
    /// position itself; each of the eight directions is counted.
    pub open spec fn live_neighbors(self, row: int, col: int) -> int {
        let north = wrap_prev(row, self.height as int);
        let south = wrap_next(row, self.height as int);
        let west = wrap_prev(col, self.width as int);
        let east = wrap_next(col, self.width as int);
        self.alive(north, west) + self.alive(north, col) + self.alive(north, east)
            + self.alive(row, west) + self.alive(row, east)
            + self.alive(south, west) + self.alive(south, col) + self.alive(south, east)
    }

    /// The state of `(row, col)` in the next generation.
    pub open spec fn step_cell(self, row: int, col: int) -> Cell {
        self.at(row, col).next_state(self.live_neighbors(row, col))
    }

    /// The grid whose cell at `(row, col)` is `f(row, col)`.
    pub open spec fn from_fn(width: nat, height: nat, f: spec_fn(int, int) -> Cell) -> Grid {
        Grid {
            width,
            height,
            cells: Seq::new(width * height, |i: int| f(i / width as int, i % width as int)),
        }
    }

    /// The next generation: every cell is judged against this grid.
    pub open spec fn step(self) -> Grid {
        Grid::from_fn(self.width, self.height, |row: int, col: int| self.step_cell(row, col))
    }

    /// The grid after `n` generations.
    pub open spec fn steps(self, n: nat) -> Grid
        decreases n,
    {
        if n == 0 {
            self
        } else {
            self.steps((n - 1) as nat).step()
        }
    }

    /// The seeded grid of the given extent.
    pub open spec fn seeded(width: nat, height: nat) -> Grid {
        Grid { width, height, cells: Seq::new(width * height, |i: int| seed_cell(i)) }
    }

    /// The grid of the given extent with every cell in the state `cell`.
    pub open spec fn filled(width: nat, height: nat, cell: Cell) -> Grid {
        Grid { width, height, cells: Seq::new(width * height, |i: int| cell) }
    }

    /// This grid with the cell at `(row, col)` replaced by `cell`.
    pub open spec fn with_cell(self, row: int, col: int, cell: Cell) -> Grid {
        Grid {
            width: self.width,
            height: self.height,
            cells: self.cells.update(self.index(row, col), cell),
        }
    }

    /// This grid with the cell at `(row, col)` flipped.
    pub open spec fn toggled(self, row: int, col: int) -> Grid {
        self.with_cell(row, col, self.at(row, col).toggled())
    }

    /// This grid with the cell at every listed `(row, column)` alive.
    pub open spec fn with_alive(self, positions: Seq<(u32, u32)>) -> Grid {
        Grid::from_fn(
            self.width,
            self.height,
            |row: int, col: int|
                if lists(positions, row, col) {
                    Cell::Alive
                } else {
                    self.at(row, col)
                },
        )
    }

    /// The cell buffer: one byte per cell in row-major order.
    pub open spec fn bytes(self) -> Seq<u8> {
        Seq::new(self.cells.len(), |i: int| self.cells[i].byte())
    }

    /// The line that renders one row: a glyph per cell, then a line break.
    pub open spec fn render_row(self, row: int) -> Seq<char> {
        Seq::new(self.width, |col: int| glyph(self.at(row, col))).push('\n')
    }

    /// The lines of the first `n` rows.
    pub open spec fn render_rows(self, n: nat) -> Seq<char>
        decreases n,
    {
        if n == 0 {
            Seq::empty()
        } else {
            self.render_rows((n - 1) as nat) + self.render_row(n - 1)
        }
    }

    /// The rendering of the grid: one line per row. A grid without cells
    /// renders as the empty text.
    pub open spec fn render(self) -> Seq<char> {
        if self.width == 0 {
            Seq::empty()
        } else {
            self.render_rows(self.height)
        }
    }

    /// A position of the grid has a flat index inside the cell sequence, and
    /// the index determines the position.
    pub proof fn lemma_index(self, row: int, col: int)
        requires
            self.in_bounds(row, col),
        ensures
            0 <= self.index(row, col) < self.width * self.height,
            self.index(row, col) / self.width as int == row,
            self.index(row, col) % self.width as int == col,
    {
        let w = self.width as int;
        let h = self.height as int;
        assert(row * w + col < w * h) by (nonlinear_arith)
            requires
                0 <= row < h,
                0 <= col < w,
        ;
        assert(0 <= row * w) by (nonlinear_arith)
            requires
                0 <= row,
                0 <= w,
        ;
        lemma_fundamental_div_mod_converse(self.index(row, col), w, row, col);
    }

    /// On a ring of `n` positions, going `n - 1` forward from `i` leads to the
    /// position before `i`, and going one forward to the position after it.
    pub proof fn lemma_wrap_mod(i: int, n: int)
        requires
            0 <= i < n,
        ensures
            (i + (n - 1)) % n == wrap_prev(i, n),
            (i + 0) % n == i,
            (i + 1) % n == wrap_next(i, n),
    {
        lemma_fundamental_div_mod_converse(i, n, 0, i);
        if i == 0 {
            lemma_fundamental_div_mod_converse(i + (n - 1), n, 0, n - 1);
        } else {
            lemma_fundamental_div_mod_converse(i + (n - 1), n, 1, i - 1);
        }
        if i == n - 1 {
            lemma_fundamental_div_mod_converse(i + 1, n, 1, 0);
        } else {
            lemma_fundamental_div_mod_converse(i + 1, n, 0, i + 1);
        }
    }

    /// Every flat index below `width * height` is the index of a position.
    pub proof fn lemma_position(self, i: int)
        requires
            0 <= i < self.width * self.height,
        ensures
            self.in_bounds(i / self.width as int, i % self.width as int),
            self.index(i / self.width as int, i % self.width as int) == i,
    {
        let w = self.width as int;
        let h = self.height as int;
        assert(w > 0) by (nonlinear_arith)
            requires
                0 <= i < w * h,
                w >= 0,
        ;
        assert(i == (i / w) * w + i % w && 0 <= i % w < w && 0 <= i / w < h) by (nonlinear_arith)
            requires
                0 <= i < w * h,
                w > 0,
        ;
    }

    /// Two grids of the same extent that agree at every position are equal.
    pub proof fn lemma_ext(self, other: Grid)
        requires
            self.wf(),
            other.wf(),
            self.width == other.width,
            self.height == other.height,
            forall|row: int, col: int|
                self.in_bounds(row, col) ==> #[trigger] self.at(row, col) == other.at(row, col),
        ensures
            self == other,
    {
        assert forall|i: int| 0 <= i < self.cells.len() implies self.cells[i] == other.cells[i] by {
            self.lemma_position(i);
            let row = i / self.width as int;
            let col = i % self.width as int;
            assert(self.at(row, col) == other.at(row, col));
        }
        assert(self.cells =~= other.cells);
    }

    /// `from_fn` builds a grid of the given extent that holds `f(row, col)` at
    /// every position.
    pub proof fn lemma_from_fn(width: nat, height: nat, f: spec_fn(int, int) -> Cell)
        ensures
            Grid::from_fn(width, height, f).wf(),
            Grid::from_fn(width, height, f).width == width,
            Grid::from_fn(width, height, f).height == height,
            forall|row: int, col: int|
                0 <= row < height && 0 <= col < width ==> #[trigger] Grid::from_fn(
                    width,
                    height,
                    f,
                ).at(row, col) == f(row, col),
    {
        let g = Grid::from_fn(width, height, f);
        assert forall|row: int, col: int| 0 <= row < height && 0 <= col < width implies #[trigger] g.at(
            row,
            col,
        ) == f(row, col) by {
            g.lemma_index(row, col);
        }
    }

    /// Listing no position leaves a well-formed grid as it is.
    pub proof fn lemma_with_alive_none(self)
        requires
            self.wf(),
        ensures
            self.with_alive(Seq::empty()) == self,
    {
        let none = Seq::<(u32, u32)>::empty();
        Grid::lemma_from_fn(
            self.width,
            self.height,
            |row: int, col: int|
                if lists(none, row, col) {
                    Cell::Alive
                } else {
                    self.at(row, col)
                },
        );
        self.with_alive(none).lemma_ext(self);
    }

    /// Listing one more position makes the cell at that position alive.
    pub proof fn lemma_with_alive_push(self, positions: Seq<(u32, u32)>, last: (u32, u32))
        requires
            self.wf(),
            self.in_bounds(last.0 as int, last.1 as int),
        ensures
            self.with_alive(positions.push(last)) == self.with_alive(positions).with_cell(
                last.0 as int,
                last.1 as int,
                Cell::Alive,
            ),
    {
        let more = positions.push(last);
        let a = self.with_alive(more);
        let base = self.with_alive(positions);
        let b = base.with_cell(last.0 as int, last.1 as int, Cell::Alive);
        Grid::lemma_from_fn(
            self.width,
            self.height,
            |row: int, col: int|
                if lists(more, row, col) {
                    Cell::Alive
                } else {
                    self.at(row, col)
                },
        );
        Grid::lemma_from_fn(
            self.width,
            self.height,
            |row: int, col: int|
                if lists(positions, row, col) {
                    Cell::Alive
                } else {
                    self.at(row, col)
                },
        );
        base.lemma_index(last.0 as int, last.1 as int);
        assert forall|row: int, col: int| a.in_bounds(row, col) implies #[trigger] a.at(row, col)
            == b.at(row, col) by {
            base.lemma_index(row, col);
            if row == last.0 && col == last.1 {
                assert(more[positions.len() as int] == last);
                assert(lists(more, row, col));
            } else {
                assert(base.index(row, col) != base.index(last.0 as int, last.1 as int));
                if lists(positions, row, col) {
                    let k = choose|k: int|
                        0 <= k < positions.len() && (#[trigger] positions[k]).0 == row
                            && positions[k].1 == col;
                    assert(more[k] == positions[k]);
                    assert(lists(more, row, col));
                } else if lists(more, row, col) {
                    let k = choose|k: int|
                        0 <= k < more.len() && (#[trigger] more[k]).0 == row && more[k].1 == col;
                    assert(k < positions.len());
                    assert(positions[k] == more[k]);
                    assert(false);
                }
            }
        }
        a.lemma_ext(b);
    }

    /// A step keeps the extent and gives every position its next state.
    pub proof fn lemma_step(self)
        ensures
            self.step().wf(),
            self.step().width == self.width,
            self.step().height == self.height,
            forall|row: int, col: int|
                self.in_bounds(row, col) ==> #[trigger] self.step().at(row, col) == self.step_cell(
                    row,
                    col,
                ),
    {
        Grid::lemma_from_fn(
            self.width,
            self.height,
            |row: int, col: int| self.step_cell(row, col),
        );
    }
}

} // verus!
