//! What holds of every grid: theorems about toggling, about the grids that a
//! step leaves alone or empties, and about the patterns that keep their shape.

use crate::cell::Cell;
use crate::grid::Grid;
use vstd::prelude::*;

verus! {

/// Every cell of a filled grid is in the state that the grid was filled with.
pub proof fn lemma_filled(width: nat, height: nat, cell: Cell)
    ensures
        Grid::filled(width, height, cell).wf(),
        forall|row: int, col: int|
            0 <= row < height && 0 <= col < width ==> #[trigger] Grid::filled(width, height, cell).at(
                row,
                col,
            ) == cell,
{
    let g = Grid::filled(width, height, cell);
    assert forall|row: int, col: int| 0 <= row < height && 0 <= col < width implies #[trigger] g.at(
        row,
        col,
    ) == cell by {
        g.lemma_index(row, col);
    }
}

/// The neighbours of a position of the grid are positions of the grid.
pub proof fn lemma_neighbors_in_bounds(g: Grid, row: int, col: int)
    requires
        g.in_bounds(row, col),
    ensures
        g.in_bounds(crate::grid::wrap_prev(row, g.height as int), col),
        g.in_bounds(crate::grid::wrap_next(row, g.height as int), col),
        g.in_bounds(row, crate::grid::wrap_prev(col, g.width as int)),
        g.in_bounds(row, crate::grid::wrap_next(col, g.width as int)),
{
}

/// Toggling the same cell twice gives back the grid as it was.
pub proof fn lemma_toggle_twice(g: Grid, row: int, col: int)
    requires
        g.wf(),
        g.in_bounds(row, col),
    ensures
        g.toggled(row, col).toggled(row, col) == g,
{
    g.lemma_index(row, col);
    assert(g.toggled(row, col).toggled(row, col).cells =~= g.cells);
}

/// Toggling a cell flips that cell and leaves every other cell as it was.
pub proof fn lemma_toggle_one_cell(g: Grid, row: int, col: int, other_row: int, other_col: int)
    requires
        g.wf(),
        g.in_bounds(row, col),
        g.in_bounds(other_row, other_col),
    ensures
        g.toggled(row, col).at(row, col) == g.at(row, col).toggled(),
        (other_row != row || other_col != col) ==> g.toggled(row, col).at(other_row, other_col)
            == g.at(other_row, other_col),
{
    g.lemma_index(row, col);
    g.lemma_index(other_row, other_col);
}

/// A grid without a live cell stays as it is: no cell comes alive by itself.
pub proof fn lemma_dead_grid_is_fixed(width: nat, height: nat)
    ensures
        Grid::filled(width, height, Cell::Dead).step() == Grid::filled(width, height, Cell::Dead),
{
    let g = Grid::filled(width, height, Cell::Dead);
    lemma_filled(width, height, Cell::Dead);
    g.lemma_step();
    assert forall|row: int, col: int| g.in_bounds(row, col) implies #[trigger] g.step().at(row, col)
        == g.at(row, col) by {
        lemma_neighbors_in_bounds(g, row, col);
        assert(g.live_neighbors(row, col) == 0);
    }
    g.step().lemma_ext(g);
}

/// A grid of live cells only is empty after one step: every cell has a live
/// cell in each of its eight directions, which is more than three. This holds
/// of every extent, also below three by three, where the eight directions
/// lead to fewer than eight cells.
pub proof fn lemma_full_grid_dies(width: nat, height: nat)
    ensures
        Grid::filled(width, height, Cell::Alive).step() == Grid::filled(width, height, Cell::Dead),
{
    let g = Grid::filled(width, height, Cell::Alive);
    let dead = Grid::filled(width, height, Cell::Dead);
    lemma_filled(width, height, Cell::Alive);
    lemma_filled(width, height, Cell::Dead);
    g.lemma_step();
    assert forall|row: int, col: int| g.in_bounds(row, col) implies #[trigger] g.step().at(row, col)
        == dead.at(row, col) by {
        lemma_neighbors_in_bounds(g, row, col);
        assert(g.live_neighbors(row, col) == 8);
    }
    g.step().lemma_ext(dead);
}

/// The cell at the origin has the last row and the last column among its
/// neighbours: the count at `(0, 0)` is made of the cells at
/// `(height - 1, 0)`, `(0, width - 1)` and `(height - 1, width - 1)` and of
/// five more cells.
pub proof fn lemma_origin_wraps(g: Grid)
    requires
        g.width > 0,
        g.height > 0,
    ensures
        g.live_neighbors(0, 0) >= g.alive(g.height - 1, 0) + g.alive(0, g.width - 1) + g.alive(
            g.height - 1,
            g.width - 1,
        ),
        g.live_neighbors(0, 0) <= g.alive(g.height - 1, 0) + g.alive(0, g.width - 1) + g.alive(
            g.height - 1,
            g.width - 1,
        ) + 5,
{
}

} // verus!
