//! Two well-known patterns, the block and the glider, as grids, with the
//! theorems that the block stands still and that the glider moves one cell
//! down and one to the right in four generations.

use crate::cell::Cell;
use crate::grid::Grid;
use vstd::prelude::*;

verus! {

/// The offsets `(dr, dc)` from its top left corner at which a block is alive:
/// a square of two by two cells.
pub open spec fn block_shape(dr: int, dc: int) -> bool {
    0 <= dr <= 1 && 0 <= dc <= 1
}

/// The offsets `(dr, dc)` from the corner of its frame at which a glider is
/// alive in the given phase. Phase 0 is the glider as it is usually drawn,
/// each further phase the generation after the one before, and phase 4 is
/// phase 0 moved by one row and one column.
pub open spec fn glider_shape(phase: int, dr: int, dc: int) -> bool {
    if phase == 0 {
        (dr == 0 && dc == 1) || (dr == 1 && dc == 2) || (dr == 2 && 0 <= dc <= 2)
    } else if phase == 1 {
        (dr == 1 && (dc == 0 || dc == 2)) || (dr == 2 && (dc == 1 || dc == 2)) || (dr == 3 && dc
            == 1)
    } else if phase == 2 {
        (dr == 1 && dc == 2) || (dr == 2 && (dc == 0 || dc == 2)) || (dr == 3 && (dc == 1 || dc
            == 2))
    } else if phase == 3 {
        (dr == 1 && dc == 1) || (dr == 2 && (dc == 2 || dc == 3)) || (dr == 3 && (dc == 1 || dc
            == 2))
    } else {
        (dr == 1 && dc == 2) || (dr == 2 && dc == 3) || (dr == 3 && 1 <= dc <= 3)
    }
}

/// The state that a cell has where `alive` says whether it is alive.
pub open spec fn cell_of(alive: bool) -> Cell {
    if alive {
        Cell::Alive
    } else {
        Cell::Dead
    }
}

/// The grid that holds one block with its top left corner at `(top, left)`
/// and no other live cell.
pub open spec fn block(width: nat, height: nat, top: int, left: int) -> Grid {
    Grid::from_fn(width, height, |row: int, col: int| cell_of(block_shape(row - top, col - left)))
}

/// The grid that holds one glider in the given phase, the corner of its frame
/// at `(top, left)`, and no other live cell.
pub open spec fn glider(width: nat, height: nat, top: int, left: int, phase: int) -> Grid {
    Grid::from_fn(
        width,
        height,
        |row: int, col: int| cell_of(glider_shape(phase, row - top, col - left)),
    )
}

/// A block that lies inside a grid of at least four rows and four columns is
/// a still life: a step leaves the grid as it is.
pub proof fn lemma_block_is_still(width: nat, height: nat, top: int, left: int)
    requires
        width >= 4,
        height >= 4,
        0 <= top,
        top + 1 < height,
        0 <= left,
        left + 1 < width,
    ensures
        block(width, height, top, left).step() == block(width, height, top, left),
{
    let g = block(width, height, top, left);
    Grid::lemma_from_fn(
        width,
        height,
        |row: int, col: int| cell_of(block_shape(row - top, col - left)),
    );
    g.lemma_step();
    assert forall|row: int, col: int| g.in_bounds(row, col) implies #[trigger] g.step().at(row, col)
        == g.at(row, col) by {
        crate::laws::lemma_neighbors_in_bounds(g, row, col);
    }
    g.step().lemma_ext(g);
}

/// One step takes a glider from a phase to the next, where the frame of four
/// by four cells lies inside a grid of at least five rows and five columns.
pub proof fn lemma_glider_step(width: nat, height: nat, top: int, left: int, phase: int)
    requires
        width >= 5,
        height >= 5,
        0 <= top,
        top + 3 < height,
        0 <= left,
        left + 3 < width,
        0 <= phase <= 3,
    ensures
        glider(width, height, top, left, phase).step() == glider(
            width,
            height,
            top,
            left,
            phase + 1,
        ),
{
    let g = glider(width, height, top, left, phase);
    let next = glider(width, height, top, left, phase + 1);
    Grid::lemma_from_fn(
        width,
        height,
        |row: int, col: int| cell_of(glider_shape(phase, row - top, col - left)),
    );
    Grid::lemma_from_fn(
        width,
        height,
        |row: int, col: int| cell_of(glider_shape(phase + 1, row - top, col - left)),
    );
    g.lemma_step();
    assert forall|row: int, col: int| g.in_bounds(row, col) implies #[trigger] g.step().at(row, col)
        == next.at(row, col) by {
        crate::laws::lemma_neighbors_in_bounds(g, row, col);
    }
    g.step().lemma_ext(next);
}

/// A glider whose frame of four by four cells lies inside a grid of at least
/// five rows and five columns has, four generations on, its first shape
/// again, one row further down and one column further to the right. On a
/// grid of four by four cells the glider meets itself round the edges and
/// this fails.
pub proof fn lemma_glider_moves(width: nat, height: nat, top: int, left: int)
    requires
        width >= 5,
        height >= 5,
        0 <= top,
        top + 3 < height,
        0 <= left,
        left + 3 < width,
    ensures
        glider(width, height, top, left, 0).steps(4) == glider(width, height, top + 1, left + 1, 0),
{
    let start = glider(width, height, top, left, 0);
    lemma_glider_step(width, height, top, left, 0);
    lemma_glider_step(width, height, top, left, 1);
    lemma_glider_step(width, height, top, left, 2);
    lemma_glider_step(width, height, top, left, 3);
    assert(start.steps(4) == glider(width, height, top, left, 4)) by {
        reveal_with_fuel(Grid::steps, 5);
    }
    let end = glider(width, height, top, left, 4);
    let moved = glider(width, height, top + 1, left + 1, 0);
    Grid::lemma_from_fn(
        width,
        height,
        |row: int, col: int| cell_of(glider_shape(4, row - top, col - left)),
    );
    Grid::lemma_from_fn(
        width,
        height,
        |row: int, col: int| cell_of(glider_shape(0, row - (top + 1), col - (left + 1))),
    );
    end.lemma_ext(moved);
}

} // verus!
