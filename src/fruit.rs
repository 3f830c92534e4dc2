//! The fruit, and its random placement on the grid.

use vstd::prelude::*;
use rand::Rng;
use crate::board::{Position, CELL_SIZE, BOARD_WIDTH, BOARD_HEIGHT, BOARD_MIN_X, BOARD_MAX_X, BOARD_MIN_Y, BOARD_MAX_Y, in_bounds, on_grid};

verus! {

/// Number of columns that a fruit may be placed in, counted from `BOARD_MIN_X`:
/// the board's width in whole cells, so that every column of the board, the
/// one at `BOARD_MAX_X` included, can be drawn.
pub const FRUIT_COLUMNS: u32 = 35;

/// Number of rows that a fruit may be placed in, counted from `BOARD_MIN_Y`:
/// the board's height in whole cells, the row at `BOARD_MAX_Y` included.
pub const FRUIT_ROWS: u32 = 27;

/// A colour as red, green and blue intensities.
#[derive(Clone, Copy, Debug, PartialEq, Eq, Structural)]
pub struct Rgb {
    pub r: u8,
    pub g: u8,
    pub b: u8,
}

/// The fruit: where it lies and how it is drawn.
#[derive(Clone, Copy, Debug, PartialEq, Eq, Structural)]
pub struct Fruit {
    pub position: Position,
    pub color: Rgb,
}

/// The position of the fruit cell at `column` and `row`.
pub open spec fn cell_position(column: int, row: int) -> Position {
    Position {
        x: (BOARD_MIN_X + column * CELL_SIZE) as i32,
        y: (BOARD_MIN_Y + row * CELL_SIZE) as i32,
    }
}

/// Whether `p` is one of the cells that a fruit may be placed in.
pub open spec fn fruit_cell(p: Position) -> bool {
    exists|column: int, row: int|
        0 <= column < FRUIT_COLUMNS && 0 <= row < FRUIT_ROWS && p == #[trigger] cell_position(column, row)
}

/// The fruit columns and rows cover the board in whole cells, from one bound to
/// the other inclusive, and every fruit cell is a legal grid position.
pub proof fn lemma_fruit_cells_on_board(column: int, row: int)
    requires
        0 <= column < FRUIT_COLUMNS,
        0 <= row < FRUIT_ROWS,
    ensures
        FRUIT_COLUMNS * CELL_SIZE == BOARD_WIDTH,
        FRUIT_ROWS * CELL_SIZE == BOARD_HEIGHT,
        (FRUIT_COLUMNS - 1) * CELL_SIZE == BOARD_MAX_X - BOARD_MIN_X,
        (FRUIT_ROWS - 1) * CELL_SIZE == BOARD_MAX_Y - BOARD_MIN_Y,
        in_bounds(cell_position(column, row)),
        on_grid(cell_position(column, row)),
{
}

/// Relies on rand's `thread_rng` and `Rng::gen_range`: a value drawn from the
/// half-open range `0..bound`, which must not be empty.
#[verifier::external_body]
fn random_below(bound: u32) -> (r: u32)
    requires
        bound > 0,
    ensures
        r < bound,
{
    rand::thread_rng().gen_range(0..bound)
}

/// Relies on random_color's `RandomColor::new().to_rgb_array()`: some colour,
/// of which nothing is promised.
#[verifier::external_body]
fn random_rgb() -> (r: Rgb) {
    let [r, g, b] = random_color::RandomColor::new().to_rgb_array();
    Rgb { r, g, b }
}

impl Fruit {
    /// The fruit at fruit cell `column`, `row` with the given colour.
    pub fn at_cell(column: u32, row: u32, color: Rgb) -> (f: Fruit)
        requires
            column < FRUIT_COLUMNS,
            row < FRUIT_ROWS,
        ensures
            f.position == cell_position(column as int, row as int),
            f.color == color,
            fruit_cell(f.position),
            in_bounds(f.position),
            on_grid(f.position),
    {
        proof {
            lemma_fruit_cells_on_board(column as int, row as int);
        }
        let x = BOARD_MIN_X + (column as i32) * CELL_SIZE;
        let y = BOARD_MIN_Y + (row as i32) * CELL_SIZE;
        Fruit { position: Position { x, y }, color }
    }

    /// A fruit on a random fruit cell, with a random colour. The worm's own
    /// cells are not avoided.
    pub fn place() -> (f: Fruit)
        ensures
            fruit_cell(f.position),
            in_bounds(f.position),
            on_grid(f.position),
    {
        let column = random_below(FRUIT_COLUMNS);
        let row = random_below(FRUIT_ROWS);
        let color = random_rgb();
        Fruit::at_cell(column, row, color)
    }
}

} // verus!
