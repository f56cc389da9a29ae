//! Positions, directions and cell states of the board.

use vstd::prelude::*;

verus! {

/// Number of columns of the board.
pub const GRID_WIDTH: u32 = 64;

/// Number of rows of the board.
pub const GRID_HEIGHT: u32 = 64;

/// Number of cells of the board.
pub const GRID_CELLS: u32 = 4096;

/// State of one cell of the board.
#[derive(Clone, Copy, Debug, PartialEq, Eq, Structural)]
pub enum Cell {
    Dead,
    Alive,
}

/// The four directions a player can choose.
#[derive(Clone, Copy, Debug, PartialEq, Eq, Structural)]
pub enum DirectionName {
    Up,
    Down,
    Left,
    Right,
}

/// How the board treats its edges.
#[derive(Clone, Copy, Debug, PartialEq, Eq, Structural)]
pub enum UniverseTopology {
    /// The edges are walls.
    Flat,
    /// Each edge continues at the opposite edge.
    Toroidal,
}

/// A cell coordinate: column `x`, row `y`.
#[derive(Clone, Copy, Debug, PartialEq, Eq, Structural)]
pub struct Position {
    pub x: u32,
    pub y: u32,
}

/// A velocity in cells per step.
#[derive(Clone, Copy, Debug, PartialEq, Eq, Structural)]
pub struct Direction {
    pub vx: i32,
    pub vy: i32,
}

/// Row-major index of column `x`, row `y` on a board of the given width.
pub open spec fn flat_index(x: int, y: int, width: int) -> int {
    y * width + x
}

/// `u + i` reduced to `[0, modulo)`.
pub open spec fn wrapped(u: u32, i: i32, modulo: u32) -> int {
    (u + i) % (modulo as int)
}

impl Position {
    /// The position lies on the board.
    pub open spec fn on_board(self) -> bool {
        self.x < GRID_WIDTH && self.y < GRID_HEIGHT
    }

    /// Row-major index of the position on the board.
    pub open spec fn index(self) -> int {
        flat_index(self.x as int, self.y as int, GRID_WIDTH as int)
    }

    /// The position of the cell with row-major index `i`.
    pub open spec fn at(i: int) -> Position {
        Position { x: (i % GRID_WIDTH as int) as u32, y: (i / GRID_WIDTH as int) as u32 }
    }
}

impl Direction {
    /// One cell along one axis.
    pub open spec fn is_step(self) -> bool {
        ||| self.vx == 0 && (self.vy == 1 || self.vy == -1)
        ||| self.vy == 0 && (self.vx == 1 || self.vx == -1)
    }
}

impl DirectionName {
    /// The velocity that the name stands for; rows grow downwards.
    pub open spec fn velocity(self) -> Direction {
        match self {
            DirectionName::Up => Direction { vx: 0, vy: -1i32 },
            DirectionName::Down => Direction { vx: 0, vy: 1 },
            DirectionName::Left => Direction { vx: -1i32, vy: 0 },
            DirectionName::Right => Direction { vx: 1, vy: 0 },
        }
    }
}

impl UniverseTopology {
    /// The other topology.
    pub open spec fn flipped(self) -> UniverseTopology {
        match self {
            UniverseTopology::Flat => UniverseTopology::Toroidal,
            UniverseTopology::Toroidal => UniverseTopology::Flat,
        }
    }
}

/// Adds a signed step to an unsigned coordinate and reduces the sum to
/// `[0, modulo)` with the always-nonnegative remainder.
pub fn add_u32_i32(u: u32, i: i32, modulo: u32) -> (r: u32)
    requires
        modulo > 0,
    ensures
        r == wrapped(u, i, modulo),
        r < modulo,
{
    let sum: i64 = u as i64 + i as i64;
    match sum.checked_rem_euclid(modulo as i64) {
        Some(rem) => rem as u32,
        None => 0,
    }
}

/// A position on the board has a cell index, and is the position of that
/// index.
pub proof fn lemma_index_of_position(p: Position)
    requires
        p.on_board(),
    ensures
        0 <= p.index() < GRID_CELLS,
        Position::at(p.index()) == p,
{
}

/// A cell index has a position on the board, and is the index of that
/// position. The board has as many cells as its rows and columns make.
pub proof fn lemma_position_of_index(i: int)
    requires
        0 <= i < GRID_CELLS,
    ensures
        GRID_CELLS == GRID_WIDTH * GRID_HEIGHT,
        Position::at(i).on_board(),
        Position::at(i).index() == i,
{
}

} // verus!
