use vstd::prelude::*;
use crate::board::{Position, X_LENGTH, Y_LENGTH};

verus! {

/// Width of one cell on screen, in pixels.
pub const UNIT_WIDTH: u32 = 40;

/// Height of one cell on screen, in pixels.
pub const UNIT_HEIGHT: u32 = 40;

/// Width of the window, in pixels.
pub const SCREEN_WIDTH: u32 = UNIT_WIDTH * X_LENGTH;

/// Height of the window, in pixels.
pub const SCREEN_HEIGHT: u32 = UNIT_HEIGHT * Y_LENGTH;

/// Screen coordinate of the center of the cell at grid coordinate 0.
pub open spec fn origin(unit: int, screen: int) -> int {
    unit / 2 - screen / 2
}

/// Screen x of the center of column `x`.
pub open spec fn screen_x(x: int) -> int {
    origin(UNIT_WIDTH as int, SCREEN_WIDTH as int) + x * UNIT_WIDTH
}

/// Screen y of the center of row `y`.
pub open spec fn screen_y(y: int) -> int {
    origin(UNIT_HEIGHT as int, SCREEN_HEIGHT as int) + y * UNIT_HEIGHT
}

/// Screen coordinates of the center of the cell at `pos`, with the board
/// centered on the screen's origin.
pub fn position_translation(pos: &Position) -> (r: (i32, i32))
    requires
        i32::MIN <= pos.x * UNIT_WIDTH <= i32::MAX,
        i32::MIN <= pos.y * UNIT_HEIGHT <= i32::MAX,
        i32::MIN <= screen_x(pos.x as int) <= i32::MAX,
        i32::MIN <= screen_y(pos.y as int) <= i32::MAX,
    ensures
        r.0 == screen_x(pos.x as int),
        r.1 == screen_y(pos.y as int),
{
    let origin_x = UNIT_WIDTH as i32 / 2 - SCREEN_WIDTH as i32 / 2;
    let origin_y = UNIT_HEIGHT as i32 / 2 - SCREEN_HEIGHT as i32 / 2;
    (origin_x + pos.x * UNIT_WIDTH as i32, origin_y + pos.y * UNIT_HEIGHT as i32)
}

} // verus!
