//! The maze the agent lives in.
use vstd::prelude::*;

verus! {

/// Number of columns.
pub const GRID_W: usize = 10;

/// Number of rows.
pub const GRID_H: usize = 10;

/// What a square of the maze holds.
#[derive(Clone, Copy, PartialEq, Eq, Structural, Debug)]
pub enum CellType {
    Empty,
    Wall,
    Goal,
}

/// The maze, row by row: `cells[y][x]` is the square in column `x` of row `y`.
pub struct GridMap {
    pub cells: [[CellType; GRID_W]; GRID_H],
}

/// Column `x`, row `y` lies inside the maze.
pub open spec fn in_bounds(x: int, y: int) -> bool {
    0 <= x < GRID_W && 0 <= y < GRID_H
}

impl GridMap {
    /// The square in column `x` of row `y`.
    pub open spec fn cell_at(&self, x: int, y: int) -> CellType {
        self.cells[y][x]
    }

    /// The agent may stand in column `x` of row `y`: inside the maze and no wall.
    pub open spec fn open_at(&self, x: int, y: int) -> bool {
        in_bounds(x, y) && self.cell_at(x, y) != CellType::Wall
    }

    /// The square in column `x` of row `y`.
    pub fn cell(&self, x: usize, y: usize) -> (c: CellType)
        requires
            in_bounds(x as int, y as int),
        ensures
            c == self.cell_at(x as int, y as int),
    {
        self.cells[y][x]
    }

    /// The square in column `x` of row `y` is not a wall.
    pub fn is_walkable(&self, x: usize, y: usize) -> (b: bool)
        requires
            in_bounds(x as int, y as int),
        ensures
            b == (self.cell_at(x as int, y as int) != CellType::Wall),
    {
        self.cells[y][x] != CellType::Wall
    }
}

/// The shipped maze, row 0 first.
pub open spec fn default_cells() -> [[CellType; GRID_W]; GRID_H] {
    [
        [CellType::Empty, CellType::Empty, CellType::Empty, CellType::Wall, CellType::Empty, CellType::Empty, CellType::Empty, CellType::Empty, CellType::Empty, CellType::Empty],
        [CellType::Empty, CellType::Wall, CellType::Empty, CellType::Wall, CellType::Empty, CellType::Wall, CellType::Wall, CellType::Empty, CellType::Empty, CellType::Empty],
        [CellType::Empty, CellType::Wall, CellType::Empty, CellType::Empty, CellType::Empty, CellType::Empty, CellType::Wall, CellType::Empty, CellType::Wall, CellType::Empty],
        [CellType::Empty, CellType::Empty, CellType::Empty, CellType::Wall, CellType::Wall, CellType::Empty, CellType::Empty, CellType::Empty, CellType::Wall, CellType::Empty],
        [CellType::Empty, CellType::Wall, CellType::Wall, CellType::Empty, CellType::Empty, CellType::Empty, CellType::Wall, CellType::Empty, CellType::Empty, CellType::Empty],
        [CellType::Empty, CellType::Empty, CellType::Empty, CellType::Empty, CellType::Wall, CellType::Empty, CellType::Wall, CellType::Wall, CellType::Empty, CellType::Empty],
        [CellType::Empty, CellType::Wall, CellType::Empty, CellType::Empty, CellType::Empty, CellType::Empty, CellType::Empty, CellType::Empty, CellType::Wall, CellType::Empty],
        [CellType::Empty, CellType::Wall, CellType::Empty, CellType::Wall, CellType::Wall, CellType::Empty, CellType::Wall, CellType::Empty, CellType::Empty, CellType::Empty],
        [CellType::Empty, CellType::Empty, CellType::Empty, CellType::Empty, CellType::Empty, CellType::Empty, CellType::Empty, CellType::Wall, CellType::Empty, CellType::Empty],
        [CellType::Empty, CellType::Empty, CellType::Wall, CellType::Empty, CellType::Empty, CellType::Empty, CellType::Empty, CellType::Empty, CellType::Empty, CellType::Goal],
    ]
}

impl Default for GridMap {
    fn default() -> (g: GridMap)
        ensures
            g.cells == default_cells(),
    {
        let e = CellType::Empty;
        let w = CellType::Wall;
        let g = CellType::Goal;
        let cells = [
            [e, e, e, w, e, e, e, e, e, e],
            [e, w, e, w, e, w, w, e, e, e],
            [e, w, e, e, e, e, w, e, w, e],
            [e, e, e, w, w, e, e, e, w, e],
            [e, w, w, e, e, e, w, e, e, e],
            [e, e, e, e, w, e, w, w, e, e],
            [e, w, e, e, e, e, e, e, w, e],
            [e, w, e, w, w, e, w, e, e, e],
            [e, e, e, e, e, e, e, w, e, e],
            [e, e, w, e, e, e, e, e, e, g],
        ];
        GridMap { cells }
    }
}

/// In the shipped maze the start square, column 0 of row 0, is free, and the
/// one goal is the far corner, column 9 of row 9.
pub proof fn lemma_default_maze_start_and_goal()
    ensures
        (GridMap { cells: default_cells() }).open_at(0, 0),
        forall|x: int, y: int|
            in_bounds(x, y) ==> ((#[trigger] default_cells()[y][x] == CellType::Goal) <==> (x
                == 9 && y == 9)),
{
    assert forall|x: int, y: int| in_bounds(x, y) implies ((#[trigger] default_cells()[y][x]
        == CellType::Goal) <==> (x == 9 && y == 9)) by {
        assert(0 <= y < 10 && 0 <= x < 10);
    }
}

} // verus!
