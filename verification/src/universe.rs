//! The executable engine: a grid stored as one byte per cell, with the
//! operations that seed, resize, toggle and advance it.

use crate::cell::Cell;
use crate::grid::{glyph, seed_cell, wrap_next, wrap_prev, Grid};
use vstd::prelude::*;

verus! {

/// A Game of Life grid that wraps round at its edges.
///
/// The cells are kept as their buffer bytes, 0 for a dead cell and 1 for a
/// live one, in row-major order, so that [`Universe::cells`] can lend the
/// buffer out as it is.
pub struct Universe {
    width: u32,
    height: u32,
    cells: Vec<u8>,
}

impl View for Universe {
    type V = Grid;

    closed spec fn view(&self) -> Grid {
        Grid {
            width: self.width as nat,
            height: self.height as nat,
            cells: Seq::new(self.cells@.len(), |i: int| Cell::of_byte(self.cells@[i])),
        }
    }
}

/// A buffer of `len` cells in the seed pattern.
fn seeded_cells(len: usize) -> (cells: Vec<u8>)
    ensures
        cells@.len() == len,
        forall|i: int| 0 <= i < len ==> #[trigger] cells@[i] == seed_cell(i).byte(),
{
    let mut cells: Vec<u8> = Vec::with_capacity(len);
    let mut i: usize = 0;
    while i < len
        invariant
            i <= len,
            cells@.len() == i,
            forall|k: int| 0 <= k < i ==> #[trigger] cells@[k] == seed_cell(k).byte(),
        decreases len - i,
    {
        let cell = if i % 2 == 0 || i % 7 == 0 {
            Cell::Alive
        } else {
            Cell::Dead
        };
        cells.push(cell.to_byte());
        i = i + 1;
    }
    cells
}

/// A buffer of `len` cells, each in the state `cell`.
fn filled_cells(len: usize, cell: Cell) -> (cells: Vec<u8>)
    ensures
        cells@.len() == len,
        forall|i: int| 0 <= i < len ==> cells@[i] == cell.byte(),
{
    let byte = cell.to_byte();
    let mut cells: Vec<u8> = Vec::with_capacity(len);
    let mut i: usize = 0;
    while i < len
        invariant
            i <= len,
            cells@.len() == i,
            byte == cell.byte(),
            forall|k: int| 0 <= k < i ==> cells@[k] == byte,
        decreases len - i,
    {
        cells.push(byte);
        i = i + 1;
    }
    cells
}

/// The cell that a buffer byte stands for.
fn decode(byte: u8) -> (cell: Cell)
    requires
        byte <= 1,
    ensures
        cell == Cell::of_byte(byte),
        cell.byte() == byte,
{
    if byte == 0 {
        Cell::Dead
    } else {
        Cell::Alive
    }
}

impl Universe {
    /// One byte per position, and every byte the encoding of a cell.
    #[verifier::type_invariant]
    spec fn inv(self) -> bool {
        &&& self.cells@.len() == self.width * self.height
        &&& forall|i: int| 0 <= i < self.cells@.len() ==> self.cells@[i] <= 1
    }

    /// A grid of 64 by 64 cells in the seed pattern.
    pub fn new() -> (universe: Universe)
        ensures
            universe@ == Grid::seeded(64, 64),
    {
        let width: u32 = 64;
        let height: u32 = 64;
        let cells = seeded_cells(width as usize * height as usize);
        let universe = Universe { width, height, cells };
        assert(universe@.cells =~= Grid::seeded(64, 64).cells);
        universe
    }

    /// Puts every cell back into the seed pattern, whatever the grid held:
    /// the cell at flat index `i` is alive exactly if `i` is a multiple of 2
    /// or of 7.
    pub fn reset(&mut self)
        ensures
            final(self)@ == Grid::seeded(old(self)@.width, old(self)@.height),
            final(self)@.wf(),
            forall|i: int|
                0 <= i < final(self)@.cells.len() ==> (#[trigger] final(self)@.cells[i]
                    == Cell::Alive <==> i % 2 == 0 || i % 7 == 0),
    {
        proof {
            use_type_invariant(&*self);
            assert(self.cells@.len() == self.cells.len() <= usize::MAX);
        }
        self.cells = seeded_cells(self.width as usize * self.height as usize);
        assert(self@.cells =~= Grid::seeded(old(self)@.width, old(self)@.height).cells);
    }

    /// Makes every cell dead.
    pub fn set_all_dead(&mut self)
        ensures
            final(self)@ == Grid::filled(old(self)@.width, old(self)@.height, Cell::Dead),
    {
        proof {
            use_type_invariant(&*self);
            assert(self.cells@.len() == self.cells.len() <= usize::MAX);
        }
        self.cells = filled_cells(self.width as usize * self.height as usize, Cell::Dead);
        assert(self@.cells =~= Grid::filled(old(self)@.width, old(self)@.height, Cell::Dead).cells);
    }

    /// Makes every cell alive.
    pub fn set_all_alive(&mut self)
        ensures
            final(self)@ == Grid::filled(old(self)@.width, old(self)@.height, Cell::Alive),
    {
        proof {
            use_type_invariant(&*self);
            assert(self.cells@.len() == self.cells.len() <= usize::MAX);
        }
        self.cells = filled_cells(self.width as usize * self.height as usize, Cell::Alive);
        assert(self@.cells =~= Grid::filled(old(self)@.width, old(self)@.height, Cell::Alive).cells);
    }

    /// Changes the number of columns and seeds the grid anew: nothing of the
    /// pattern that the grid held is kept.
    pub fn set_width(&mut self, width: u32)
        requires
            width * old(self)@.height <= usize::MAX,
        ensures
            final(self)@ == Grid::seeded(width as nat, old(self)@.height),
    {
        let height = self.height;
        let cells = seeded_cells(width as usize * height as usize);
        *self = Universe { width, height, cells };
        assert(self@.cells =~= Grid::seeded(width as nat, old(self)@.height).cells);
    }

    /// Changes the number of rows and seeds the grid anew: nothing of the
    /// pattern that the grid held is kept.
    pub fn set_height(&mut self, height: u32)
        requires
            old(self)@.width * height <= usize::MAX,
        ensures
            final(self)@ == Grid::seeded(old(self)@.width, height as nat),
    {
        let width = self.width;
        let cells = seeded_cells(width as usize * height as usize);
        *self = Universe { width, height, cells };
        assert(self@.cells =~= Grid::seeded(old(self)@.width, height as nat).cells);
    }

    /// The number of columns.
    pub fn width(&self) -> (width: u32)
        ensures
            width == self@.width,
            self@.wf(),
    {
        proof {
            use_type_invariant(self);
        }
        self.width
    }

    /// The number of rows.
    pub fn height(&self) -> (height: u32)
        ensures
            height == self@.height,
            self@.wf(),
    {
        proof {
            use_type_invariant(self);
        }
        self.height
    }

    /// The flat index of the cell at `(row, column)`.
    pub fn get_index(&self, row: u32, column: u32) -> (idx: usize)
        requires
            row < self@.height,
            column < self@.width,
        ensures
            idx == self@.index(row as int, column as int),
            idx == row * self@.width + column,
            idx < self@.cells.len(),
    {
        proof {
            use_type_invariant(self);
            self@.lemma_index(row as int, column as int);
            assert(0 <= (row as int) * (self.width as int) <= self@.index(row as int, column as int))
                by (nonlinear_arith)
                requires
                    self@.index(row as int, column as int) == row * self.width + column,
            ;
            assert(self.cells@.len() == self.cells.len() <= usize::MAX);
        }
        row as usize * self.width as usize + column as usize
    }

    /// The buffer byte of the cell at `(row, column)`: 1 if it is alive.
    fn alive_at(&self, row: u32, column: u32) -> (b: u8)
        requires
            row < self@.height,
            column < self@.width,
        ensures
            b == self@.alive(row as int, column as int),
            b == self@.at(row as int, column as int).byte(),
    {
        proof {
            use_type_invariant(self);
        }
        let idx = self.get_index(row, column);
        self.cells[idx]
    }

    /// Counts the live cells among the eight neighbours of `(row, column)`,
    /// the neighbours of a cell on an edge being taken from the opposite edge.
    pub fn live_neighbor_count(&self, row: u32, column: u32) -> (count: u8)
        requires
            row < self@.height,
            column < self@.width,
        ensures
            count == self@.live_neighbors(row as int, column as int),
            count <= 8,
    {
        let north = if row == 0 {
            self.height - 1
        } else {
            row - 1
        };
        let south = if row == self.height - 1 {
            0
        } else {
            row + 1
        };
        let west = if column == 0 {
            self.width - 1
        } else {
            column - 1
        };
        let east = if column == self.width - 1 {
            0
        } else {
            column + 1
        };

        let mut count: u8 = 0;
        count = count + self.alive_at(north, west);
        count = count + self.alive_at(north, column);
        count = count + self.alive_at(north, east);
        count = count + self.alive_at(row, west);
        count = count + self.alive_at(row, east);
        count = count + self.alive_at(south, west);
        count = count + self.alive_at(south, column);
        count = count + self.alive_at(south, east);
        count
    }

    /// The live cells of row `r` among the first `n` of the three columns
    /// west of, at and east of `col`; the middle column is left out where
    /// `r` is the row of the position that is being counted round.
    spec fn row_part(self, r: int, col: int, n: int, own_row: bool) -> int {
        let west = wrap_prev(col, self@.width as int);
        let east = wrap_next(col, self@.width as int);
        (if n >= 1 {
            self@.alive(r, west)
        } else {
            0
        }) + (if n >= 2 && !own_row {
            self@.alive(r, col)
        } else {
            0
        }) + (if n >= 3 {
            self@.alive(r, east)
        } else {
            0
        })
    }

    /// Counts the live neighbours of `(row, column)` as
    /// [`Universe::live_neighbor_count`] does, by another way: it goes over
    /// the row offsets `height - 1`, 0 and 1 and the column offsets
    /// `width - 1`, 0 and 1, takes each sum modulo the extent, and passes over
    /// the one pair in the middle, which is the position itself.
    pub fn live_neighbor_count_slow(&self, row: u32, column: u32) -> (count: u8)
        requires
            row < self@.height,
            column < self@.width,
        ensures
            count == self@.live_neighbors(row as int, column as int),
            count <= 8,
    {
        let delta_rows: [u32; 3] = [self.height - 1, 0, 1];
        let delta_cols: [u32; 3] = [self.width - 1, 0, 1];
        let ghost north = wrap_prev(row as int, self@.height as int);
        let ghost south = wrap_next(row as int, self@.height as int);
        proof {
            Grid::lemma_wrap_mod(row as int, self@.height as int);
            Grid::lemma_wrap_mod(column as int, self@.width as int);
        }
        let mut count: u8 = 0;
        for i in 0..3usize
            invariant
                row < self@.height,
                column < self@.width,
                north == wrap_prev(row as int, self@.height as int),
                south == wrap_next(row as int, self@.height as int),
                delta_rows@ == seq![(self@.height - 1) as u32, 0u32, 1u32],
                delta_cols@ == seq![(self@.width - 1) as u32, 0u32, 1u32],
                count <= 3 * i,
                i >= 2 ==> count <= 3 * i - 1,
                count == (if i >= 1 {
                    self.row_part(north, column as int, 3, false)
                } else {
                    0
                }) + (if i >= 2 {
                    self.row_part(row as int, column as int, 3, true)
                } else {
                    0
                }) + (if i >= 3 {
                    self.row_part(south, column as int, 3, false)
                } else {
                    0
                }),
        {
            let delta_row = delta_rows[i];
            let neighbor_row = ((row as u64 + delta_row as u64) % (self.height as u64)) as u32;
            let ghost above = count;
            proof {
                Grid::lemma_wrap_mod(row as int, self@.height as int);
            }
            assert(neighbor_row == (if i == 0 {
                north
            } else if i == 1 {
                row as int
            } else {
                south
            }));
            for j in 0..3usize
                invariant
                    i < 3,
                    row < self@.height,
                    column < self@.width,
                    neighbor_row < self@.height,
                    delta_cols@ == seq![(self@.width - 1) as u32, 0u32, 1u32],
                    above <= 3 * i,
                    i >= 2 ==> above <= 3 * i - 1,
                    count <= above + j,
                    i == 1 && j >= 2 ==> count <= above + j - 1,
                    count == above + self.row_part(
                        neighbor_row as int,
                        column as int,
                        j as int,
                        i == 1,
                    ),
            {
                if !(i == 1 && j == 1) {
                    let delta_col = delta_cols[j];
                    let neighbor_col = ((column as u64 + delta_col as u64) % (self.width
                        as u64)) as u32;
                    proof {
                        Grid::lemma_wrap_mod(column as int, self@.width as int);
                    }
                    count = count + self.alive_at(neighbor_row, neighbor_col);
                }
            }
        }
        count
    }

    /// The buffer byte that the cell at `(row, column)` has in the next
    /// generation.
    fn next_byte(&self, row: u32, column: u32) -> (byte: u8)
        requires
            row < self@.height,
            column < self@.width,
        ensures
            byte == self@.step_cell(row as int, column as int).byte(),
    {
        let cell = decode(self.alive_at(row, column));
        let live_neighbors = self.live_neighbor_count(row, column);

        let next_cell = match (cell, live_neighbors) {
            // A live cell with fewer than two live neighbours dies.
            (Cell::Alive, x) if x < 2 => Cell::Dead,
            // A live cell with two or three live neighbours lives on.
            (Cell::Alive, 2) | (Cell::Alive, 3) => Cell::Alive,
            // A live cell with more than three live neighbours dies.
            (Cell::Alive, x) if x > 3 => Cell::Dead,
            // A dead cell with exactly three live neighbours comes alive.
            (Cell::Dead, 3) => Cell::Alive,
            // Every other cell stays as it is.
            (otherwise, _) => otherwise,
        };
        next_cell.to_byte()
    }

    /// Advances the grid by one generation. Every cell is judged against the
    /// generation before the call: the next one is built in a buffer of its
    /// own, which then takes the place of the old one.
    pub fn tick(&mut self)
        ensures
            final(self)@ == old(self)@.step(),
            final(self)@.wf(),
    {
        let ghost stepped = self@.step();
        proof {
            use_type_invariant(&*self);
            self@.lemma_step();
        }
        let mut next = self.cells.clone();
        assert(self@.index(0, 0) == 0);

        for row in 0..self.height
            invariant
                self@ == old(self)@,
                stepped == old(self)@.step(),
                next@.len() == stepped.cells.len(),
                next@.len() == self@.cells.len(),
                forall|i: int|
                    0 <= i < self@.index(row as int, 0) && i < next@.len() ==> #[trigger] next@[i]
                        == stepped.cells[i].byte(),
        {
            for col in 0..self.width
                invariant
                    row < self.height,
                    self@ == old(self)@,
                    stepped == old(self)@.step(),
                    next@.len() == stepped.cells.len(),
                    next@.len() == self@.cells.len(),
                    forall|i: int|
                        0 <= i < self@.index(row as int, col as int) && i < next@.len()
                            ==> #[trigger] next@[i] == stepped.cells[i].byte(),
            {
                let idx = self.get_index(row, col);
                let byte = self.next_byte(row, col);
                proof {
                    self@.lemma_step();
                    assert(stepped.at(row as int, col as int) == self@.step_cell(
                        row as int,
                        col as int,
                    ));
                }
                next.set(idx, byte);
            }
            proof {
                let w = self@.width as int;
                assert(self@.index(row + 1, 0) == self@.index(row as int, w)) by (nonlinear_arith)
                    requires
                        self@.index(row + 1, 0) == (row + 1) * w + 0,
                        self@.index(row as int, w) == row * w + w,
                ;
            }
        }

        proof {
            use_type_invariant(&*self);
            assert(self@.index(self.height as int, 0) == next@.len());
            assert forall|i: int| 0 <= i < next@.len() implies #[trigger] next@[i] <= 1 by {
                assert(next@[i] == stepped.cells[i].byte());
            }
        }
        self.cells = next;
        assert(self@.cells =~= stepped.cells);
    }

    /// Writes `byte` at `idx` of the buffer. The grid is taken out of `self`
    /// as a whole and put back with the byte written, so that no grid with a
    /// half-made buffer is ever in place.
    fn put(&mut self, idx: usize, byte: u8)
        requires
            idx < old(self)@.cells.len(),
            byte <= 1,
        ensures
            final(self)@.width == old(self)@.width,
            final(self)@.height == old(self)@.height,
            final(self)@.cells == old(self)@.cells.update(idx as int, Cell::of_byte(byte)),
    {
        proof {
            use_type_invariant(&*self);
        }
        let mut taken = Universe { width: 0, height: 0, cells: Vec::new() };
        std::mem::swap(self, &mut taken);
        let Universe { width, height, mut cells } = taken;
        cells.set(idx, byte);
        *self = Universe { width, height, cells };
        assert(self@.cells =~= old(self)@.cells.update(idx as int, Cell::of_byte(byte)));
    }

    /// Flips the cell at `(row, column)` between dead and alive. No other cell
    /// changes.
    pub fn toggle_cell(&mut self, row: u32, column: u32)
        requires
            row < old(self)@.height,
            column < old(self)@.width,
        ensures
            final(self)@ == old(self)@.toggled(row as int, column as int),
            final(self)@.wf(),
    {
        proof {
            use_type_invariant(&*self);
        }
        let idx = self.get_index(row, column);
        let mut cell = decode(self.cells[idx]);
        cell.toggle();
        self.put(idx, cell.to_byte());
        assert(self@.cells =~= old(self)@.toggled(row as int, column as int).cells);
    }

    /// The cell buffer as it is kept: one byte per cell, 0 for a dead cell and
    /// 1 for a live one, in row-major order. The borrow ends before the grid
    /// can be changed.
    pub fn cells(&self) -> (bytes: &[u8])
        ensures
            bytes@ == self@.bytes(),
            bytes@.len() == self@.width * self@.height,
            forall|i: int| 0 <= i < bytes@.len() ==> #[trigger] bytes@[i] <= 1,
    {
        proof {
            use_type_invariant(self);
        }
        let bytes = self.cells.as_slice();
        assert(bytes@ =~= self@.bytes());
        bytes
    }

    /// The cells in row-major order.
    pub fn get_cells(&self) -> (cells: Vec<Cell>)
        ensures
            cells@ == self@.cells,
            self@.wf(),
    {
        proof {
            use_type_invariant(self);
        }
        let len = self.cells.len();
        let mut cells: Vec<Cell> = Vec::with_capacity(len);
        let mut i: usize = 0;
        while i < len
            invariant
                i <= len,
                len == self.cells@.len(),
                cells@.len() == i,
                forall|k: int| 0 <= k < self.cells@.len() ==> self.cells@[k] <= 1,
                forall|k: int| 0 <= k < i ==> cells@[k] == Cell::of_byte(self.cells@[k]),
            decreases len - i,
        {
            cells.push(decode(self.cells[i]));
            i = i + 1;
        }
        assert(cells@ =~= self@.cells);
        cells
    }

    /// Makes the cell at every listed `(row, column)` alive and leaves the
    /// others as they are.
    pub fn set_cells(&mut self, cells: &[(u32, u32)])
        requires
            forall|k: int|
                0 <= k < cells@.len() ==> (#[trigger] cells@[k]).0 < old(self)@.height && cells@[k].1
                    < old(self)@.width,
        ensures
            final(self)@ == old(self)@.with_alive(cells@),
            final(self)@.wf(),
    {
        proof {
            use_type_invariant(&*self);
            old(self)@.lemma_with_alive_none();
            assert(cells@.take(0) =~= Seq::empty());
        }
        let mut k: usize = 0;
        while k < cells.len()
            invariant
                k <= cells@.len(),
                old(self)@.wf(),
                self@.width == old(self)@.width,
                self@.height == old(self)@.height,
                forall|j: int|
                    0 <= j < cells@.len() ==> (#[trigger] cells@[j]).0 < old(self)@.height
                        && cells@[j].1 < old(self)@.width,
                self@ == old(self)@.with_alive(cells@.take(k as int)),
            decreases cells@.len() - k,
        {
            let (row, col) = cells[k];
            let idx = self.get_index(row, col);
            let ghost before = self@;
            proof {
                use_type_invariant(&*self);
            }
            self.put(idx, Cell::Alive.to_byte());
            proof {
                assert(self@.cells =~= before.with_cell(row as int, col as int, Cell::Alive).cells);
                old(self)@.lemma_with_alive_push(cells@.take(k as int), (row, col));
                assert(cells@.take(k as int).push((row, col)) =~= cells@.take(k + 1));
            }
            k = k + 1;
        }
        assert(cells@.take(k as int) =~= cells@);
    }

    /// Renders the grid as text: one line per row, a glyph per cell, each
    /// line ended by a line break. A grid without cells renders as the empty
    /// text.
    pub fn render(&self) -> (text: String)
        ensures
            text@ == self@.render(),
    {
        let mut text = String::new();
        if self.width == 0 {
            return text;
        }
        for row in 0..self.height
            invariant
                self.width > 0,
                text@ == self@.render_rows(row as nat),
        {
            let ghost above = text@;
            for col in 0..self.width
                invariant
                    row < self.height,
                    text@ == above + Seq::new(col as nat, |c: int| glyph(self@.at(row as int, c))),
            {
                let cell = decode(self.alive_at(row, col));
                let ghost line = text@;
                if cell == Cell::Dead {
                    proof {
                        reveal_strlit("\u{25a1}");
                    }
                    text.append("\u{25a1}");
                } else {
                    proof {
                        reveal_strlit("\u{25a0}");
                    }
                    text.append("\u{25a0}");
                }
                assert(text@ =~= line.push(glyph(self@.at(row as int, col as int))));
                assert(text@ =~= above + Seq::new(
                    (col + 1) as nat,
                    |c: int| glyph(self@.at(row as int, c)),
                ));
            }
            proof {
                reveal_strlit("\n");
            }
            text.append("\n");
            assert(text@ =~= above + self@.render_row(row as int));
        }
        text
    }
}

} // verus!
