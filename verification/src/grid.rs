//! Grid cells and the extent of the arena.

use vstd::prelude::*;
use crate::direction::Direction;

verus! {

/// Number of columns of the arena.
pub const ARENA_WIDTH: u32 = 10;

/// Number of rows of the arena.
pub const ARENA_HEIGHT: u32 = 10;

/// A cell of the grid. The origin is the bottom-left cell: `x` grows to the
/// right and `y` grows upwards. A position may lie outside the arena.
#[derive(Clone, Copy, Debug, PartialEq, Eq, Structural)]
pub struct Position {
    pub x: i32,
    pub y: i32,
}

impl Position {
    /// Whether the cell lies inside the arena.
    pub open spec fn in_arena(self) -> bool {
        0 <= self.x < ARENA_WIDTH && 0 <= self.y < ARENA_HEIGHT
    }

    /// Whether `count` unit steps towards `direction` stay within the range
    /// of the coordinates.
    pub open spec fn can_step_by(self, direction: Direction, count: nat) -> bool {
        match direction {
            Direction::Left => self.x - count >= i32::MIN,
            Direction::Right => self.x + count <= i32::MAX,
            Direction::Up => self.y + count <= i32::MAX,
            Direction::Down => self.y - count >= i32::MIN,
        }
    }

    /// The cell reached after `count` unit steps towards `direction`:
    /// left and right change `x`, up increases `y` and down decreases it.
    pub open spec fn step_by(self, direction: Direction, count: nat) -> Position {
        match direction {
            Direction::Left => Position { x: (self.x - count) as i32, y: self.y },
            Direction::Right => Position { x: (self.x + count) as i32, y: self.y },
            Direction::Up => Position { x: self.x, y: (self.y + count) as i32 },
            Direction::Down => Position { x: self.x, y: (self.y - count) as i32 },
        }
    }

    /// Whether one unit step towards `direction` stays within the range of
    /// the coordinates.
    pub open spec fn spec_can_step(self, direction: Direction) -> bool {
        self.can_step_by(direction, 1)
    }

    /// The neighbouring cell towards `direction`.
    pub open spec fn spec_step(self, direction: Direction) -> Position {
        self.step_by(direction, 1)
    }

    /// Tells whether [`Position::step`] may be called with `direction`.
    #[verifier::when_used_as_spec(spec_can_step)]
    pub fn can_step(self, direction: Direction) -> (fits: bool)
        ensures
            fits == self.spec_can_step(direction),
    {
        match direction {
            Direction::Left => self.x > i32::MIN,
            Direction::Right => self.x < i32::MAX,
            Direction::Up => self.y < i32::MAX,
            Direction::Down => self.y > i32::MIN,
        }
    }

    /// Moves one cell towards `direction`.
    #[verifier::when_used_as_spec(spec_step)]
    pub fn step(self, direction: Direction) -> (next: Position)
        requires
            self.spec_can_step(direction),
        ensures
            next == self.spec_step(direction),
    {
        match direction {
            Direction::Left => Position { x: self.x - 1, y: self.y },
            Direction::Right => Position { x: self.x + 1, y: self.y },
            Direction::Up => Position { x: self.x, y: self.y + 1 },
            Direction::Down => Position { x: self.x, y: self.y - 1 },
        }
    }
}

/// Stepping one cell at a time adds up: `count + 1` steps are `count` steps
/// followed by one more.
pub proof fn lemma_step_by_succ(start: Position, direction: Direction, count: nat)
    requires
        start.can_step_by(direction, count + 1),
    ensures
        start.can_step_by(direction, count),
        start.step_by(direction, count).can_step(direction),
        start.step_by(direction, count).step(direction) == start.step_by(direction, count + 1),
        start.step_by(direction, 0) == start,
{
}

} // verus!
