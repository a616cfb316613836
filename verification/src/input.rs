//! The keys that steer the snake, and the heading they ask for.

use vstd::prelude::*;
use crate::direction::Direction;

verus! {

/// A key that steers the snake: the four arrow keys and `W`, `A`, `S`, `D`.
#[derive(Clone, Copy, Debug, PartialEq, Eq, Structural)]
pub enum Key {
    Left,
    Right,
    Up,
    Down,
    A,
    D,
    W,
    S,
}

/// The set of steering keys that are held down at one moment.
#[derive(Clone, Copy, Debug, PartialEq, Eq, Structural)]
pub struct PressedKeys {
    pub left: bool,
    pub right: bool,
    pub up: bool,
    pub down: bool,
    pub a: bool,
    pub d: bool,
    pub w: bool,
    pub s: bool,
}

impl PressedKeys {
    /// Whether `key` is held down.
    pub open spec fn spec_pressed(self, key: Key) -> bool {
        match key {
            Key::Left => self.left,
            Key::Right => self.right,
            Key::Up => self.up,
            Key::Down => self.down,
            Key::A => self.a,
            Key::D => self.d,
            Key::W => self.w,
            Key::S => self.s,
        }
    }

    /// The heading that the held keys ask for. Where keys of several
    /// headings are held, left wins over right, right over up and up over
    /// down; each heading has an arrow key and a letter key.
    pub open spec fn spec_requested(self) -> Option<Direction> {
        if self.spec_pressed(Key::Left) || self.spec_pressed(Key::A) {
            Some(Direction::Left)
        } else if self.spec_pressed(Key::Right) || self.spec_pressed(Key::D) {
            Some(Direction::Right)
        } else if self.spec_pressed(Key::Up) || self.spec_pressed(Key::W) {
            Some(Direction::Up)
        } else if self.spec_pressed(Key::Down) || self.spec_pressed(Key::S) {
            Some(Direction::Down)
        } else {
            None
        }
    }

    /// No key held.
    pub fn none() -> (keys: PressedKeys)
        ensures
            forall|key: Key| !keys.spec_pressed(key),
            keys.spec_requested() is None,
    {
        PressedKeys {
            left: false,
            right: false,
            up: false,
            down: false,
            a: false,
            d: false,
            w: false,
            s: false,
        }
    }

    /// The same keys with `key` held down as well.
    pub fn with(self, key: Key) -> (keys: PressedKeys)
        ensures
            forall|other: Key| keys.spec_pressed(other) == (other == key || self.spec_pressed(other)),
    {
        let mut keys = self;
        match key {
            Key::Left => { keys.left = true; },
            Key::Right => { keys.right = true; },
            Key::Up => { keys.up = true; },
            Key::Down => { keys.down = true; },
            Key::A => { keys.a = true; },
            Key::D => { keys.d = true; },
            Key::W => { keys.w = true; },
            Key::S => { keys.s = true; },
        }
        keys
    }

    #[verifier::when_used_as_spec(spec_pressed)]
    pub fn pressed(self, key: Key) -> (held: bool)
        ensures
            held == self.spec_pressed(key),
    {
        match key {
            Key::Left => self.left,
            Key::Right => self.right,
            Key::Up => self.up,
            Key::Down => self.down,
            Key::A => self.a,
            Key::D => self.d,
            Key::W => self.w,
            Key::S => self.s,
        }
    }

    #[verifier::when_used_as_spec(spec_requested)]
    pub fn requested(self) -> (asked: Option<Direction>)
        ensures
            asked == self.spec_requested(),
    {
        if self.pressed(Key::Left) || self.pressed(Key::A) {
            Some(Direction::Left)
        } else if self.pressed(Key::Right) || self.pressed(Key::D) {
            Some(Direction::Right)
        } else if self.pressed(Key::Up) || self.pressed(Key::W) {
            Some(Direction::Up)
        } else if self.pressed(Key::Down) || self.pressed(Key::S) {
            Some(Direction::Down)
        } else {
            None
        }
    }
}

/// The heading proposed for the next move: the one the keys ask for, or the
/// current one where no steering key is held.
pub open spec fn candidate_heading(current: Direction, keys: PressedKeys) -> Direction {
    match keys.requested() {
        Some(asked) => asked,
        None => current,
    }
}

/// The heading after one update: the candidate, unless it is the exact
/// opposite of the current heading, which is then kept.
pub open spec fn next_heading(current: Direction, keys: PressedKeys) -> Direction {
    if candidate_heading(current, keys) != current.opposite() {
        candidate_heading(current, keys)
    } else {
        current
    }
}

/// An update never turns the heading round, whatever keys are held.
pub proof fn lemma_heading_never_reverses(current: Direction, keys: PressedKeys)
    ensures
        next_heading(current, keys) != current.opposite(),
{
}

/// While the same keys stay held, the heading settles after one update:
/// further updates leave it as it is.
pub proof fn lemma_heading_settles(current: Direction, keys: PressedKeys)
    ensures
        next_heading(next_heading(current, keys), keys) == next_heading(current, keys),
{
}

} // verus!
