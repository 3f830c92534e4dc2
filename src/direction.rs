//! Directions of travel, the reversal guard, and the one-cell advance of the head.

use vstd::prelude::*;
use crate::board::{
    Position, CELL_SIZE, BOARD_MIN_X, BOARD_MAX_X, BOARD_MIN_Y, BOARD_MAX_Y, in_bounds, on_grid,
    wrapped, lemma_wrapped_within,
};

verus! {

/// A direction of travel; the worm always has one.
#[derive(Clone, Copy, Debug, PartialEq, Eq, Structural)]
pub enum Direction {
    Up,
    Down,
    Right,
    Left,
}

/// The direction that points the other way.
pub open spec fn opposite_of(d: Direction) -> Direction {
    match d {
        Direction::Up => Direction::Down,
        Direction::Down => Direction::Up,
        Direction::Right => Direction::Left,
        Direction::Left => Direction::Right,
    }
}

/// The direction after `requested` is asked for while travelling `current`:
/// a direct reversal is ignored, anything else is taken.
pub open spec fn turned(current: Direction, requested: Direction) -> Direction {
    if requested == opposite_of(current) {
        current
    } else {
        requested
    }
}

/// The position one cell from `p` in direction `d`, before wrapping.
pub open spec fn moved(p: Position, d: Direction) -> Position {
    match d {
        Direction::Up => Position { x: p.x, y: (p.y + CELL_SIZE) as i32 },
        Direction::Down => Position { x: p.x, y: (p.y - CELL_SIZE) as i32 },
        Direction::Right => Position { x: (p.x + CELL_SIZE) as i32, y: p.y },
        Direction::Left => Position { x: (p.x - CELL_SIZE) as i32, y: p.y },
    }
}

/// Where the head goes on a step from `p` in direction `d`: one cell on, with
/// each axis wrapped into the playable bounds.
pub open spec fn next_head(p: Position, d: Direction) -> Position {
    let m = moved(p, d);
    Position {
        x: wrapped(m.x as int, BOARD_MIN_X as int, BOARD_MAX_X as int) as i32,
        y: wrapped(m.y as int, BOARD_MIN_Y as int, BOARD_MAX_Y as int) as i32,
    }
}

impl Direction {
    /// The direction that points the other way.
    pub fn opposite(self) -> (r: Direction)
        ensures
            r == opposite_of(self),
    {
        match self {
            Direction::Up => Direction::Down,
            Direction::Down => Direction::Up,
            Direction::Right => Direction::Left,
            Direction::Left => Direction::Right,
        }
    }

    /// The direction taken when `requested` is asked for while travelling `self`.
    pub fn turn(self, requested: Direction) -> (r: Direction)
        ensures
            r == turned(self, requested),
    {
        if requested == self.opposite() {
            self
        } else {
            requested
        }
    }
}

/// Advancing one step and wrapping keeps a legal position within the bounds on
/// both axes, and keeps it on the grid.
pub proof fn lemma_step_stays_on_board(p: Position, d: Direction)
    requires
        in_bounds(p),
    ensures
        in_bounds(next_head(p, d)),
        on_grid(p) ==> on_grid(next_head(p, d)),
        next_head(p, d) != p,
{
    let m = moved(p, d);
    lemma_wrapped_within(m.x as int, BOARD_MIN_X as int, BOARD_MAX_X as int);
    lemma_wrapped_within(m.y as int, BOARD_MIN_Y as int, BOARD_MAX_Y as int);
}

/// Moves `head` one cell in direction `d` and wraps each axis into the bounds.
pub fn advance(head: Position, d: Direction) -> (r: Position)
    requires
        in_bounds(head),
    ensures
        r == next_head(head, d),
        in_bounds(r),
        on_grid(head) ==> on_grid(r),
{
    proof {
        lemma_step_stays_on_board(head, d);
    }
    let m = match d {
        Direction::Up => Position { x: head.x, y: head.y + CELL_SIZE },
        Direction::Down => Position { x: head.x, y: head.y - CELL_SIZE },
        Direction::Right => Position { x: head.x + CELL_SIZE, y: head.y },
        Direction::Left => Position { x: head.x - CELL_SIZE, y: head.y },
    };
    m.wrap()
}

} // verus!
