//! Board geometry: the playable bounds and wrap-around arithmetic.

use vstd::prelude::*;

verus! {

/// Side length of one grid cell, in world units.
pub const CELL_SIZE: i32 = 25;

/// Width of the board, in world units.
pub const BOARD_WIDTH: i32 = 875;

/// Height of the board, in world units.
pub const BOARD_HEIGHT: i32 = 675;

/// Largest x a cell centre may take, so that the cell stays inside the board:
/// half the width less half a cell.
pub const BOARD_MAX_X: i32 = 425;

/// Smallest x a cell centre may take.
pub const BOARD_MIN_X: i32 = -BOARD_MAX_X;

/// Largest y a cell centre may take: half the height less half a cell.
pub const BOARD_MAX_Y: i32 = 325;

/// Smallest y a cell centre may take.
pub const BOARD_MIN_Y: i32 = -BOARD_MAX_Y;

/// A point of the board, as the centre of a cell.
#[derive(Clone, Copy, Debug, PartialEq, Eq, Structural)]
pub struct Position {
    pub x: i32,
    pub y: i32,
}

/// Whether `p` lies within the playable bounds on both axes.
pub open spec fn in_bounds(p: Position) -> bool {
    &&& BOARD_MIN_X <= p.x <= BOARD_MAX_X
    &&& BOARD_MIN_Y <= p.y <= BOARD_MAX_Y
}

/// Whether `p` lies on the grid of cell centres that passes through the origin.
pub open spec fn on_grid(p: Position) -> bool {
    p.x % CELL_SIZE == 0 && p.y % CELL_SIZE == 0
}

/// The value of `clamp_wrap`: below `min` wraps to `max`, above `max` wraps to `min`.
pub open spec fn wrapped(c: int, min: int, max: int) -> int {
    if c < min {
        max
    } else if c > max {
        min
    } else {
        c
    }
}

/// Wraps a coordinate that has left `[min, max]` to the opposite edge.
pub fn clamp_wrap(coordinate: i32, min: i32, max: i32) -> (r: i32)
    ensures
        r == wrapped(coordinate as int, min as int, max as int),
{
    if coordinate < min {
        max
    } else if coordinate > max {
        min
    } else {
        coordinate
    }
}

/// Whether `p` lies within the bounds and on the grid.
pub fn position_on_board(p: Position) -> (r: bool)
    ensures
        r == (in_bounds(p) && on_grid(p)),
{
    BOARD_MIN_X <= p.x && p.x <= BOARD_MAX_X && BOARD_MIN_Y <= p.y && p.y <= BOARD_MAX_Y && p.x
        % CELL_SIZE == 0 && p.y % CELL_SIZE == 0
}

impl Position {
    /// The origin of the board.
    pub fn origin() -> (r: Position)
        ensures
            r.x == 0 && r.y == 0,
    {
        Position { x: 0, y: 0 }
    }

    /// Wraps both axes of the position into the playable bounds, independently.
    pub fn wrap(self) -> (r: Position)
        ensures
            r.x == wrapped(self.x as int, BOARD_MIN_X as int, BOARD_MAX_X as int),
            r.y == wrapped(self.y as int, BOARD_MIN_Y as int, BOARD_MAX_Y as int),
    {
        Position {
            x: clamp_wrap(self.x, BOARD_MIN_X, BOARD_MAX_X),
            y: clamp_wrap(self.y, BOARD_MIN_Y, BOARD_MAX_Y),
        }
    }
}

/// The bounds leave half a cell of margin at each edge of the board, and the
/// edges are whole cells away from the origin.
pub proof fn lemma_bounds_fit_board()
    ensures
        2 * BOARD_MAX_X + CELL_SIZE == BOARD_WIDTH,
        2 * BOARD_MAX_Y + CELL_SIZE == BOARD_HEIGHT,
        BOARD_MIN_X % CELL_SIZE == 0 && BOARD_MAX_X % CELL_SIZE == 0,
        BOARD_MIN_Y % CELL_SIZE == 0 && BOARD_MAX_Y % CELL_SIZE == 0,
{
}

/// Every wrapped coordinate lies within `[min, max]` when that interval is not empty.
pub proof fn lemma_wrapped_within(c: int, min: int, max: int)
    requires
        min <= max,
    ensures
        min <= wrapped(c, min, max) <= max,
{
}

} // verus!
