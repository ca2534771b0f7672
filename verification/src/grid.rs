//! Grid geometry: the fixed bounds of the board and positions on it.

use vstd::prelude::*;
use crate::direction::Direction;

verus! {

/// Number of columns of the board.
pub const WIDTH: u32 = 30;

/// Number of rows of the board.
pub const HEIGHT: u32 = 30;

/// A cell of the grid. A position may lie outside the board: the head leaves
/// it for the length of one tick when the snake runs into a wall.
#[derive(Clone, Copy, PartialEq, Eq, Structural, Debug, Hash)]
pub struct Position {
    pub x: i32,
    pub y: i32,
}

/// A position is on the board when both coordinates are within the bounds.
pub open spec fn in_bounds(pos: Position) -> bool {
    0 <= pos.x < WIDTH && 0 <= pos.y < HEIGHT
}

/// A position from which a step in any direction stays representable.
pub open spec fn can_step(pos: Position) -> bool {
    i32::MIN < pos.x < i32::MAX && i32::MIN < pos.y < i32::MAX
}

/// The neighbouring cell in the given direction.
pub open spec fn step(pos: Position, dir: Direction) -> Position {
    Position { x: (pos.x + dir.dx()) as i32, y: (pos.y + dir.dy()) as i32 }
}

/// Whether `pos` lies on the board.
pub fn is_in_bounds(pos: Position) -> (inside: bool)
    ensures
        inside == in_bounds(pos),
{
    0 <= pos.x && pos.x < WIDTH as i32 && 0 <= pos.y && pos.y < HEIGHT as i32
}

impl Default for Position {
    /// The cell in the lower left corner of the board.
    fn default() -> (pos: Position)
        ensures
            pos == (Position { x: 0, y: 0 }),
    {
        Position { x: 0, y: 0 }
    }
}

impl Position {
    /// Builds a position from its coordinates.
    pub fn new(x: i32, y: i32) -> (pos: Position)
        ensures
            pos.x == x,
            pos.y == y,
    {
        Position { x, y }
    }

    /// Moves one cell in `dir`: up raises `y`, down lowers it, right raises
    /// `x`, left lowers it. The other coordinate is kept.
    pub fn advance(self, dir: Direction) -> (next: Position)
        requires
            can_step(self),
        ensures
            next == step(self, dir),
            next.x == self.x + dir.dx(),
            next.y == self.y + dir.dy(),
    {
        match dir {
            Direction::Left => Position { x: self.x - 1, y: self.y },
            Direction::Right => Position { x: self.x + 1, y: self.y },
            Direction::Up => Position { x: self.x, y: self.y + 1 },
            Direction::Down => Position { x: self.x, y: self.y - 1 },
        }
    }
}

} // verus!
