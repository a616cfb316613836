//! Four-way headings.

use vstd::prelude::*;

verus! {

/// The direction the snake is heading in.
#[derive(Clone, Copy, Debug, PartialEq, Eq, Structural)]
pub enum Direction {
    Left,
    Up,
    Right,
    Down,
}

impl Direction {
    /// The heading that points the other way: left and right swap, up and
    /// down swap.
    pub open spec fn spec_opposite(self) -> Direction {
        match self {
            Direction::Left => Direction::Right,
            Direction::Right => Direction::Left,
            Direction::Up => Direction::Down,
            Direction::Down => Direction::Up,
        }
    }

    #[verifier::when_used_as_spec(spec_opposite)]
    pub fn opposite(self) -> (turned: Direction)
        ensures
            turned == self.spec_opposite(),
    {
        match self {
            Direction::Left => Direction::Right,
            Direction::Right => Direction::Left,
            Direction::Up => Direction::Down,
            Direction::Down => Direction::Up,
        }
    }
}

/// Turning round twice gives the heading back, and no heading is its own
/// opposite.
pub proof fn lemma_opposite_involution(direction: Direction)
    ensures
        direction.opposite().opposite() == direction,
        direction.opposite() != direction,
{
}

} // verus!
