//! Directions of travel and the resolution of keyboard input.

use vstd::prelude::*;

verus! {

/// One of the four directions in which the snake can travel.
#[derive(Clone, Copy, PartialEq, Eq, Structural, Debug)]
pub enum Direction {
    Left,
    Right,
    Up,
    Down,
}

/// The movement keys that are held down when the input is sampled.
#[derive(Clone, Copy, PartialEq, Eq, Structural, Debug)]
pub struct Keys {
    pub left: bool,
    pub right: bool,
    pub up: bool,
    pub down: bool,
}

impl Direction {
    /// The direction that points the other way.
    pub open spec fn spec_opposite(self) -> Direction {
        match self {
            Direction::Left => Direction::Right,
            Direction::Right => Direction::Left,
            Direction::Up => Direction::Down,
            Direction::Down => Direction::Up,
        }
    }

    /// Change of the `x` coordinate made by one step.
    pub open spec fn dx(self) -> int {
        match self {
            Direction::Left => -1,
            Direction::Right => 1,
            Direction::Up => 0,
            Direction::Down => 0,
        }
    }

    /// Change of the `y` coordinate made by one step.
    pub open spec fn dy(self) -> int {
        match self {
            Direction::Left => 0,
            Direction::Right => 0,
            Direction::Up => 1,
            Direction::Down => -1,
        }
    }

    /// The direction that points the other way.
    #[verifier::when_used_as_spec(spec_opposite)]
    pub fn opposite(self) -> (other: Direction)
        ensures
            other == self.spec_opposite(),
    {
        match self {
            Direction::Left => Direction::Right,
            Direction::Right => Direction::Left,
            Direction::Up => Direction::Down,
            Direction::Down => Direction::Up,
        }
    }
}

/// The direction that a sample of keys asks for: the first key held in the
/// order left, right, up, down, and `current` when none is held.
pub open spec fn requested(keys: Keys, current: Direction) -> Direction {
    if keys.left {
        Direction::Left
    } else if keys.right {
        Direction::Right
    } else if keys.up {
        Direction::Up
    } else if keys.down {
        Direction::Down
    } else {
        current
    }
}

/// The buffered direction after a sample of keys: the requested direction
/// replaces it unless the request is the opposite of the current direction.
/// Only that reversal is turned down; a request for the current direction
/// itself is taken like any other.
pub open spec fn resolved(keys: Keys, current: Direction, buffered: Direction) -> Direction {
    let wish = requested(keys, current);
    if wish != current.spec_opposite() {
        wish
    } else {
        buffered
    }
}

impl Keys {
    /// A sample with no key held.
    pub fn none() -> (keys: Keys)
        ensures
            keys == (Keys { left: false, right: false, up: false, down: false }),
    {
        Keys { left: false, right: false, up: false, down: false }
    }

    /// The direction that this sample asks for, given the current one.
    pub fn request(self, current: Direction) -> (wish: Direction)
        ensures
            wish == requested(self, current),
    {
        if self.left {
            Direction::Left
        } else if self.right {
            Direction::Right
        } else if self.up {
            Direction::Up
        } else if self.down {
            Direction::Down
        } else {
            current
        }
    }

    /// The direction to buffer for the next movement tick: the requested
    /// one, unless it reverses the current direction, in which case what was
    /// buffered stays. With no key held the current direction is buffered.
    pub fn resolve(self, current: Direction, buffered: Direction) -> (next: Direction)
        ensures
            next == resolved(self, current, buffered),
            buffered != current.spec_opposite() ==> next != current.spec_opposite(),
            requested(self, current) == current.spec_opposite() ==> next == buffered,
            requested(self, current) != current.spec_opposite() ==> next == requested(
                self,
                current,
            ),
    {
        let wish = self.request(current);
        if wish != current.opposite() {
            wish
        } else {
            buffered
        }
    }
}

} // verus!
