//! The terrain grid: typed cells generated once at level creation and
//! immutable thereafter. Cell kinds decide passability per unit and whether
//! line of fire is blocked.

use vstd::prelude::*;
use crate::geometry::Rect;

verus! {

/// Side length of one grid cell, in pixels.
pub const CELL: i32 = 32;

/// Number of cell columns in a level.
pub const GRID_W: usize = 17;

/// Number of cell rows in a level.
pub const GRID_H: usize = 14;

/// Width of the playing field, in pixels.
pub const FIELD_W: i32 = 544;

/// Height of the playing field, in pixels.
pub const FIELD_H: i32 = 448;

/// What a terrain cell is made of.
///
/// `Open` is passable to all and never blocks fire; `Pit` is impassable to
/// the player unit only; `Wall` is impassable to all and blocks fire;
/// `Conveyor` is passable but non-stoppable: the player unit standing on one
/// keeps being pushed along its last commanded direction until blocked or
/// redirected.
#[derive(Clone, Copy, PartialEq, Eq, Structural, Debug)]
pub enum CellKind {
    Open,
    Pit,
    Wall,
    Conveyor,
}

/// One fixed tile of the terrain grid.
#[derive(Clone, Copy, PartialEq, Eq, Structural, Debug)]
pub struct Cell {
    pub rect: Rect,
    pub kind: CellKind,
}

/// Whether a cell of kind `k` stops a moving unit; pits stop only the player.
pub open spec fn blocks_unit(k: CellKind, is_player: bool) -> bool {
    k == CellKind::Wall || (k == CellKind::Pit && is_player)
}

/// Whether a cell of kind `k` blocks the line of fire.
pub open spec fn blocks_fire(k: CellKind) -> bool {
    k == CellKind::Wall
}

/// The fixed level pattern: a walled border, a lattice of interior wall
/// pillars, a row of conveyor belts, and a sprinkling of pits.
pub open spec fn kind_at(i: int, j: int) -> CellKind {
    if i == 0 || j == 0 || i == GRID_W - 1 || j == GRID_H - 1 {
        CellKind::Wall
    } else if i % 4 == 2 && j % 4 == 2 {
        CellKind::Wall
    } else if j == 7 && i % 4 == 1 {
        CellKind::Conveyor
    } else if i % 6 == 3 && j % 5 == 3 {
        CellKind::Pit
    } else {
        CellKind::Open
    }
}

/// The rectangle of the cell in column `i`, row `j`.
pub open spec fn cell_rect_at(i: int, j: int) -> Rect {
    Rect { x: (CELL * i) as i32, y: (CELL * j) as i32, w: CELL, h: CELL }
}

/// The cell that position `k` of the row-major grid holds.
pub open spec fn cell_at(k: int) -> Cell {
    Cell {
        rect: cell_rect_at(k % (GRID_W as int), k / (GRID_W as int)),
        kind: kind_at(k % (GRID_W as int), k / (GRID_W as int)),
    }
}

/// A well-formed terrain grid: one cell per grid position, in row-major
/// order, each with the rectangle and kind the fixed pattern assigns.
pub open spec fn wf_cells(cells: Seq<Cell>) -> bool {
    &&& cells.len() == GRID_W * GRID_H
    &&& forall|k: int| 0 <= k < cells.len() ==> #[trigger] cells[k] == cell_at(k)
}

/// The kind of the cell in column `i`, row `j` of the fixed pattern.
pub fn cell_kind(i: usize, j: usize) -> (k: CellKind)
    requires
        i < GRID_W,
        j < GRID_H,
    ensures
        k == kind_at(i as int, j as int),
{
    if i == 0 || j == 0 || i == GRID_W - 1 || j == GRID_H - 1 {
        CellKind::Wall
    } else if i % 4 == 2 && j % 4 == 2 {
        CellKind::Wall
    } else if j == 7 && i % 4 == 1 {
        CellKind::Conveyor
    } else if i % 6 == 3 && j % 5 == 3 {
        CellKind::Pit
    } else {
        CellKind::Open
    }
}

/// Builds the terrain grid for a level, row-major.
pub fn make_cells() -> (cells: Vec<Cell>)
    ensures
        wf_cells(cells@),
{
    let mut cells: Vec<Cell> = Vec::new();
    let mut j: usize = 0;
    while j < GRID_H
        invariant
            j <= GRID_H,
            cells@.len() == j * GRID_W,
            forall|k: int| 0 <= k < cells@.len() ==> #[trigger] cells@[k] == cell_at(k),
        decreases GRID_H - j,
    {
        let mut i: usize = 0;
        while i < GRID_W
            invariant
                j < GRID_H,
                i <= GRID_W,
                cells@.len() == j * GRID_W + i,
                forall|k: int| 0 <= k < cells@.len() ==> #[trigger] cells@[k] == cell_at(k),
            decreases GRID_W - i,
        {
            let rect = Rect { x: CELL * (i as i32), y: CELL * (j as i32), w: CELL, h: CELL };
            let kind = cell_kind(i, j);
            cells.push(Cell { rect, kind });
            proof {
                let k = cells@.len() - 1;
                assert(k == j * (GRID_W as int) + i);
                assert(k % (GRID_W as int) == i as int) by (nonlinear_arith)
                    requires
                        k == j * (GRID_W as int) + i,
                        0 <= i < (GRID_W as int),
                        0 <= j,
                ;
                assert(k / (GRID_W as int) == j as int) by (nonlinear_arith)
                    requires
                        k == j * (GRID_W as int) + i,
                        0 <= i < (GRID_W as int),
                        0 <= j,
                ;
            }
            i = i + 1;
        }
        j = j + 1;
    }
    cells
}

} // verus!
