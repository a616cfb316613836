//! The snake: its head, which holds the heading, and its body.

use vstd::prelude::*;
use crate::direction::Direction;
use crate::grid::Position;
use crate::input::{PressedKeys, candidate_heading, next_heading};

verus! {

/// The head of the snake. It holds the heading that the next move follows.
#[derive(Clone, Copy, Debug, PartialEq, Eq, Structural)]
pub struct SnakeHead {
    pub direction: Direction,
}

impl SnakeHead {
    /// Updates the heading from the held keys. A reversal is refused, even
    /// where its key is the only one held.
    pub fn steer(&mut self, keys: PressedKeys)
        ensures
            final(self).direction == next_heading(old(self).direction, keys),
            final(self).direction != old(self).direction.opposite(),
    {
        let candidate = match keys.requested() {
            Some(asked) => asked,
            None => self.direction,
        };
        assert(candidate == candidate_heading(self.direction, keys));
        if candidate != self.direction.opposite() {
            self.direction = candidate;
        }
    }
}

/// The body after one move towards `direction`: the head steps to the
/// neighbouring cell and every other segment takes the cell that the segment
/// before it held until then.
pub open spec fn moved(body: Seq<Position>, direction: Direction) -> Seq<Position> {
    Seq::new(
        body.len(),
        |i: int| if i == 0 { body[0].step(direction) } else { body[i - 1] },
    )
}

/// The body after `count` moves towards `direction`.
pub open spec fn moved_by(body: Seq<Position>, direction: Direction, count: nat) -> Seq<Position>
    decreases count,
{
    if count == 0 {
        body
    } else {
        moved(moved_by(body, direction, (count - 1) as nat), direction)
    }
}

/// The body with `count` new segments behind its tail, all at `position`.
pub open spec fn grown(body: Seq<Position>, position: Position, count: nat) -> Seq<Position> {
    body + Seq::new(count, |i: int| position)
}

/// The segments of the snake in order, head first and tail last.
#[derive(Debug)]
pub struct SnakeSegments(pub Vec<Position>);

impl View for SnakeSegments {
    type V = Seq<Position>;

    open spec fn view(&self) -> Seq<Position> {
        self.0@
    }
}

impl Default for SnakeSegments {
    /// A body without any segment.
    fn default() -> (body: SnakeSegments)
        ensures
            body@ == Seq::<Position>::empty(),
    {
        SnakeSegments(Vec::new())
    }
}

impl SnakeSegments {
    /// Adds a segment at `position` behind the tail.
    pub fn spawn_segment(&mut self, position: Position)
        ensures
            final(self)@ == old(self)@.push(position),
            final(self)@ == grown(old(self)@, position, 1),
    {
        self.0.push(position);
        assert(self@ =~= grown(old(self)@, position, 1));
    }

    /// Moves the snake one cell towards `direction` and returns the cell
    /// that the tail has left.
    pub fn advance(&mut self, direction: Direction) -> (left_behind: Position)
        requires
            old(self)@.len() >= 1,
            old(self)@[0].can_step(direction),
        ensures
            final(self)@ == moved(old(self)@, direction),
            left_behind == old(self)@.last(),
    {
        let len = self.0.len();
        let mut after: Vec<Position> = Vec::new();
        after.push(self.0[0].step(direction));
        let mut i: usize = 1;
        while i < len
            invariant
                1 <= i <= len,
                len == self@.len(),
                self@ == old(self)@,
                after@.len() == i,
                forall|j: int| 0 <= j < i ==> after@[j] == #[trigger] moved(self@, direction)[j],
            decreases len - i,
        {
            after.push(self.0[i - 1]);
            i += 1;
        }
        let left_behind = self.0[len - 1];
        self.0 = after;
        assert(self@ =~= moved(old(self)@, direction));
        left_behind
    }
}

/// A move keeps the number of segments.
pub proof fn lemma_moved_by_len(body: Seq<Position>, direction: Direction, count: nat)
    ensures
        moved_by(body, direction, count).len() == body.len(),
    decreases count,
{
    if count > 0 {
        lemma_moved_by_len(body, direction, (count - 1) as nat);
    }
}

/// After `count` moves with one heading, the head is `count` unit steps
/// from where it started.
pub proof fn lemma_head_after_moves(body: Seq<Position>, direction: Direction, count: nat)
    requires
        body.len() >= 1,
        body[0].can_step_by(direction, count),
    ensures
        moved_by(body, direction, count).len() == body.len(),
        moved_by(body, direction, count)[0] == body[0].step_by(direction, count),
    decreases count,
{
    lemma_moved_by_len(body, direction, count);
    if count > 0 {
        let before = (count - 1) as nat;
        crate::grid::lemma_step_by_succ(body[0], direction, before);
        lemma_head_after_moves(body, direction, before);
        lemma_moved_by_len(body, direction, before);
    }
}

/// Every segment follows the head with a delay of its index: after `count`
/// moves, segment `index` is where the head was after `count - index` moves,
/// and a segment that the head's trail has not reached yet is where the
/// segment `count` places before it started.
pub proof fn lemma_segment_trails_head(
    body: Seq<Position>,
    direction: Direction,
    count: nat,
    index: nat,
)
    requires
        index < body.len(),
    ensures
        index <= count ==> moved_by(body, direction, count)[index as int] == moved_by(
            body,
            direction,
            (count - index) as nat,
        )[0],
        index > count ==> moved_by(body, direction, count)[index as int] == body[index - count],
    decreases count,
{
    if count > 0 && index > 0 {
        let before = (count - 1) as nat;
        lemma_moved_by_len(body, direction, before);
        lemma_segment_trails_head(body, direction, before, (index - 1) as nat);
    }
}

/// Growing appends exactly the new segments: the segments before keep their
/// places, each new one lies at `position`, and the length grows by `count`.
pub proof fn lemma_grown(body: Seq<Position>, position: Position, count: nat)
    ensures
        grown(body, position, count).len() == body.len() + count,
        grown(body, position, count).subrange(0, body.len() as int) == body,
        forall|i: int|
            body.len() <= i < body.len() + count ==> #[trigger] grown(body, position, count)[i]
                == position,
        grown(body, position, 0) == body,
        count > 0 ==> grown(body, position, count) == grown(
            body,
            position,
            (count - 1) as nat,
        ).push(position),
{
    assert(grown(body, position, count).subrange(0, body.len() as int) =~= body);
    assert(grown(body, position, 0) =~= body);
    if count > 0 {
        assert(grown(body, position, count) =~= grown(body, position, (count - 1) as nat).push(
            position,
        ));
    }
}

} // verus!
