//! The game: the state of one session and the steps that each frame runs.

use vstd::prelude::*;
use crate::direction::Direction;
use crate::food::{Food, drawn_position, position_from_draws, random_draw};
use crate::grid::Position;
use crate::input::{PressedKeys, next_heading};
use crate::snake::{SnakeHead, SnakeSegments, grown, moved};
use crate::timer::{FoodSpawnTimer, SnakeMoveTimer, Timer};

verus! {

/// Column of the head when a session starts.
pub const START_X: i32 = 3;

/// Row of the head when a session starts.
pub const START_Y: i32 = 3;

/// The cell on which the snake grows its next segment: the one that the tail
/// held before the latest move or, until the first move, the cell behind the
/// tail of the snake as it was placed. It is `None` only while no snake has
/// been placed.
#[derive(Clone, Copy, Debug, PartialEq, Eq, Structural)]
pub struct LastTailPosition(pub Option<Position>);

/// A request to grow by one segment, raised when the head eats.
#[derive(Clone, Copy, Debug, PartialEq, Eq, Structural)]
pub struct GrowthEvent;

/// The food that is left once everything lying on `cell` is taken away.
pub open spec fn away_from(foods: Seq<Food>, cell: Position) -> Seq<Food> {
    foods.filter(|food: Food| food.position != cell)
}

/// What a game holds, as plain mathematical values.
pub struct GameView {
    /// The heading of the head; `None` while there is no snake.
    pub heading: Option<Direction>,
    /// The cells of the snake, head first.
    pub segments: Seq<Position>,
    /// The cell that the tail left on the latest move; before the first
    /// move, the cell behind the tail of the snake as it was placed.
    pub last_tail: Option<Position>,
    /// The food on the grid, oldest first.
    pub foods: Seq<Food>,
    /// The number of growth requests that wait to be served.
    pub growth_requests: nat,
    /// The timer that paces the moves.
    pub move_timer: Timer,
    /// The timer that paces the arrival of food.
    pub food_timer: Timer,
}

impl GameView {
    /// A snake, where there is one, has a head and at least one more
    /// segment.
    pub open spec fn wf(self) -> bool {
        self.heading is Some ==> self.segments.len() >= 2
    }

    /// Whether the move timer has just completed and there is a head to act
    /// for: only then does the snake move or eat.
    pub open spec fn moves(self) -> bool {
        self.heading is Some && self.move_timer.finished
    }

    /// The state once a snake is placed at the start: heading up, the head on
    /// the start cell and one segment directly below it. The cell below that
    /// segment is put on record as the one the tail has left, so that the
    /// snake can grow before it has moved.
    pub open spec fn after_spawn(self) -> GameView {
        GameView {
            heading: Some(Direction::Up),
            segments: seq![
                Position { x: START_X, y: START_Y },
                Position { x: START_X, y: (START_Y - 1) as i32 },
            ],
            last_tail: Some(Position { x: START_X, y: (START_Y - 2) as i32 }),
            ..self
        }
    }

    /// The state after `delta` microseconds went into the move timer.
    pub open spec fn after_timer(self, delta: u64) -> GameView {
        GameView { move_timer: self.move_timer.ticked(delta), ..self }
    }

    /// Whether the movement step can run: where it moves the head, the
    /// head's new coordinate has to exist.
    pub open spec fn can_move(self, keys: PressedKeys) -> bool {
        self.moves() ==> self.segments[0].can_step(next_heading(self.heading->0, keys))
    }

    /// The state after the heading is updated from the keys. Without a head
    /// nothing happens. Whether the move timer has completed plays no part.
    pub open spec fn after_steering(self, keys: PressedKeys) -> GameView {
        match self.heading {
            None => self,
            Some(heading) => GameView { heading: Some(next_heading(heading, keys)), ..self },
        }
    }

    /// The state after the movement step. Without a head nothing happens.
    /// Otherwise the heading is updated from the keys; and where the move
    /// timer has just completed, the snake moves one cell along the new
    /// heading and the cell that the tail left is recorded.
    pub open spec fn after_movement(self, keys: PressedKeys) -> GameView {
        let steered = self.after_steering(keys);
        if steered.moves() {
            GameView {
                segments: moved(steered.segments, steered.heading->0),
                last_tail: Some(steered.segments.last()),
                ..steered
            }
        } else {
            steered
        }
    }

    /// The number of pieces of food that the eating step takes: those lying
    /// on the head's cell, where the move timer has just completed.
    pub open spec fn eaten(self) -> nat {
        if self.moves() {
            (self.foods.len() - away_from(self.foods, self.segments[0]).len()) as nat
        } else {
            0
        }
    }

    /// The state after the eating step: where the move timer has just
    /// completed, every piece of food on the head's cell is gone and has
    /// raised one growth request.
    pub open spec fn after_eating(self) -> GameView {
        if self.moves() {
            GameView {
                foods: away_from(self.foods, self.segments[0]),
                growth_requests: self.growth_requests + self.eaten(),
                ..self
            }
        } else {
            self
        }
    }

    /// Whether `count` growth requests can be served: they have to be
    /// waiting, and a tail cell has to be on record to place the segments.
    pub open spec fn can_grow(self, count: nat) -> bool {
        count <= self.growth_requests && (count > 0 ==> self.last_tail is Some)
    }

    /// The state after `count` growth requests are served: each adds one
    /// segment behind the tail, on the cell that the tail left on the latest
    /// move.
    pub open spec fn after_growth(self, count: nat) -> GameView {
        if count == 0 {
            self
        } else {
            GameView {
                segments: grown(self.segments, self.last_tail->0, count),
                growth_requests: (self.growth_requests - count) as nat,
                ..self
            }
        }
    }

    /// Whether a frame can run with these keys after `delta` microseconds.
    pub open spec fn frame_allowed(self, keys: PressedKeys, delta: u64) -> bool {
        &&& self.after_timer(delta).can_move(keys)
        &&& self.after_timer(delta).after_movement(keys).can_grow(self.growth_requests)
    }

    /// The state after one frame. In this order: the move timer takes
    /// `delta`, the heading is updated, the snake moves if the timer has
    /// completed, the head eats if the timer has completed, and the growth
    /// requests that were waiting when the frame began are served. A request
    /// raised in this frame waits for the next one.
    pub open spec fn after_frame(self, keys: PressedKeys, delta: u64) -> GameView {
        self.after_timer(delta).after_movement(keys).after_eating().after_growth(
            self.growth_requests,
        )
    }

    /// The state with one more piece of food, at `position`.
    pub open spec fn with_food(self, position: Position) -> GameView {
        GameView { foods: self.foods.push(Food { position }), ..self }
    }

    /// The state after the food step with the given draws: the food timer
    /// takes `delta`, and where that completes it, one piece of food appears
    /// on the cell that the draws select.
    pub open spec fn after_food(self, delta: u64, draw_x: u32, draw_y: u32) -> GameView {
        let ticked = GameView { food_timer: self.food_timer.ticked(delta), ..self };
        if ticked.food_timer.finished {
            ticked.with_food(drawn_position(draw_x, draw_y))
        } else {
            ticked
        }
    }
}

/// One session of the game.
#[derive(Debug)]
pub struct Game {
    /// The head, which holds the heading; `None` while there is no snake.
    pub head: Option<SnakeHead>,
    /// The cells of the snake, head first.
    pub segments: SnakeSegments,
    /// The cell that the tail left on the latest move; before the first
    /// move, the cell behind the tail of the snake as it was placed.
    pub last_tail_position: LastTailPosition,
    /// The food on the grid, oldest first.
    pub foods: Vec<Food>,
    /// The growth requests that wait to be served.
    pub growth_events: Vec<GrowthEvent>,
    /// The timer that paces the moves.
    pub move_timer: SnakeMoveTimer,
    /// The timer that paces the arrival of food.
    pub food_timer: FoodSpawnTimer,
}

impl View for Game {
    type V = GameView;

    open spec fn view(&self) -> GameView {
        GameView {
            heading: match self.head {
                Some(head) => Some(head.direction),
                None => None,
            },
            segments: self.segments@,
            last_tail: self.last_tail_position.0,
            foods: self.foods@,
            growth_requests: self.growth_events@.len(),
            move_timer: self.move_timer.0,
            food_timer: self.food_timer.0,
        }
    }
}

impl Game {
    /// A session with the given timers and nothing on the grid yet.
    pub fn new(move_timer: SnakeMoveTimer, food_timer: FoodSpawnTimer) -> (game: Game)
        ensures
            game@ == (GameView {
                heading: None,
                segments: Seq::empty(),
                last_tail: None,
                foods: Seq::empty(),
                growth_requests: 0,
                move_timer: move_timer.0,
                food_timer: food_timer.0,
            }),
            game@.wf(),
    {
        Game {
            head: None,
            segments: SnakeSegments(Vec::new()),
            last_tail_position: LastTailPosition(None),
            foods: Vec::new(),
            growth_events: Vec::new(),
            move_timer,
            food_timer,
        }
    }

    /// Places a snake of two segments at the start, heading up, and puts the
    /// cell behind its tail on record for the first growth. A snake that was
    /// there before is replaced.
    pub fn spawn_snake(&mut self)
        ensures
            final(self)@ == old(self)@.after_spawn(),
            final(self)@.wf(),
            final(self)@.last_tail is Some,
            final(self)@.can_grow(final(self)@.growth_requests),
    {
        self.head = Some(SnakeHead { direction: Direction::Up });
        let mut segments = SnakeSegments(Vec::new());
        segments.spawn_segment(Position { x: START_X, y: START_Y });
        segments.spawn_segment(Position { x: START_X, y: START_Y - 1 });
        self.segments = segments;
        self.last_tail_position = LastTailPosition(Some(Position { x: START_X, y: START_Y - 2 }));
        assert(self@.segments =~= old(self)@.after_spawn().segments);
    }

    /// Lets `delta` microseconds go into the move timer.
    pub fn snake_timer(&mut self, delta: u64)
        ensures
            final(self)@ == old(self)@.after_timer(delta),
    {
        self.move_timer.0.tick(delta);
    }

    /// Updates the heading from the keys, on every frame and whether or not
    /// the snake moves in it. A reversal is refused. Without a head nothing
    /// happens.
    pub fn steer(&mut self, keys: PressedKeys)
        ensures
            final(self)@ == old(self)@.after_steering(keys),
            final(self)@.wf() == old(self)@.wf(),
            old(self)@.heading matches Some(heading) ==> final(self)@.heading == Some(
                next_heading(heading, keys),
            ) && final(self)@.heading != Some(heading.opposite()),
            old(self)@.heading is None ==> final(self)@.heading is None,
    {
        if let Some(mut head) = self.head {
            head.steer(keys);
            self.head = Some(head);
        }
    }

    /// The movement step: updates the heading from the keys and, where the
    /// move timer has just completed, moves the snake one cell.
    pub fn snake_movement(&mut self, keys: PressedKeys)
        requires
            old(self)@.wf(),
            old(self)@.can_move(keys),
        ensures
            final(self)@ == old(self)@.after_movement(keys),
            final(self)@.wf(),
            old(self)@.heading matches Some(heading) ==> final(self)@.heading != Some(
                heading.opposite(),
            ),
            old(self)@.last_tail is Some ==> final(self)@.last_tail is Some,
    {
        self.steer(keys);
        if let Some(head) = self.head {
            if self.move_timer.0.finished() {
                let left_behind = self.segments.advance(head.direction);
                self.last_tail_position = LastTailPosition(Some(left_behind));
            }
        }
    }

    /// The eating step: where the move timer has just completed, takes every
    /// piece of food that lies on the head's cell off the grid and raises one
    /// growth request for each.
    pub fn snake_eating(&mut self)
        requires
            old(self)@.wf(),
        ensures
            final(self)@ == old(self)@.after_eating(),
            final(self)@.wf(),
            final(self)@.growth_requests == old(self)@.growth_requests + old(self)@.eaten(),
            final(self)@.foods.len() + old(self)@.eaten() == old(self)@.foods.len(),
            old(self)@.moves() ==> forall|i: int|
                0 <= i < final(self)@.foods.len() ==> (#[trigger] final(self)@.foods[i]).position
                    != old(self)@.segments[0],
    {
        if !self.move_timer.0.finished() {
            return ;
        }
        if self.head.is_some() {
            let head_position = self.segments.0[0];
            proof {
                lemma_away_from(self@.foods, head_position);
                lemma_away_from_last(self.foods@.take(0), head_position);
            }
            let count = self.foods.len();
            let mut kept: Vec<Food> = Vec::new();
            let mut i: usize = 0;
            while i < count
                invariant
                    i <= count,
                    count == self.foods@.len(),
                    self.foods@ == old(self).foods@,
                    self.head == old(self).head,
                    self.segments == old(self).segments,
                    self.last_tail_position == old(self).last_tail_position,
                    self.move_timer == old(self).move_timer,
                    self.food_timer == old(self).food_timer,
                    kept@ == away_from(self.foods@.take(i as int), head_position),
                    self.growth_events@.len() + kept@.len() == old(self).growth_events@.len() + i,
                decreases count - i,
            {
                let food = self.foods[i];
                proof {
                    let seen = self.foods@.take(i + 1);
                    assert(seen.drop_last() =~= self.foods@.take(i as int));
                    assert(seen.last() == food);
                    lemma_away_from_last(seen, head_position);
                }
                if food.position == head_position {
                    self.growth_events.push(GrowthEvent);
                } else {
                    kept.push(food);
                }
                i += 1;
            }
            assert(self.foods@.take(count as int) =~= self.foods@);
            self.foods = kept;
        }
    }

    /// Serves `count` of the waiting growth requests: each adds one segment
    /// on the cell that the tail left on the latest move.
    fn grow(&mut self, count: usize)
        requires
            old(self)@.wf(),
            old(self)@.can_grow(count as nat),
        ensures
            final(self)@ == old(self)@.after_growth(count as nat),
            final(self)@.wf(),
    {
        if let Some(position) = self.last_tail_position.0 {
            proof {
                crate::snake::lemma_grown(self.segments@, position, 0);
            }
            let mut served: usize = 0;
            while served < count
                invariant
                    served <= count,
                    count <= old(self)@.growth_requests,
                    old(self)@.last_tail == Some(position),
                    self.head == old(self).head,
                    self.last_tail_position == old(self).last_tail_position,
                    self.foods == old(self).foods,
                    self.move_timer == old(self).move_timer,
                    self.food_timer == old(self).food_timer,
                    self.growth_events@.len() + served == old(self).growth_events@.len(),
                    self.segments@ == grown(old(self).segments@, position, served as nat),
                decreases count - served,
            {
                self.growth_events.pop();
                self.segments.spawn_segment(position);
                served += 1;
                proof {
                    crate::snake::lemma_grown(old(self).segments@, position, served as nat);
                }
            }
        }
    }

    /// The growth step: serves every waiting growth request. Each adds one
    /// segment behind the tail, on the cell that the tail left on the latest
    /// move.
    pub fn snake_growth(&mut self)
        requires
            old(self)@.wf(),
            old(self)@.can_grow(old(self)@.growth_requests),
        ensures
            final(self)@ == old(self)@.after_growth(old(self)@.growth_requests),
            final(self)@.growth_requests == 0,
            final(self)@.segments.len() == old(self)@.segments.len()
                + old(self)@.growth_requests,
            final(self)@.wf(),
    {
        let count = self.growth_events.len();
        self.grow(count);
    }

    /// Tells whether [`Game::frame`] may be called with these keys and this
    /// much time.
    pub fn frame_allowed(&self, keys: PressedKeys, delta: u64) -> (allowed: bool)
        requires
            self@.wf(),
        ensures
            allowed == self@.frame_allowed(keys, delta),
    {
        let mut timer = self.move_timer.0;
        let finished = timer.tick(delta);
        let due = self.growth_events.len();
        match self.head {
            Some(head) if finished => {
                let mut turned = head;
                turned.steer(keys);
                self.segments.0[0].can_step(turned.direction)
            },
            _ => due == 0 || self.last_tail_position.0.is_some(),
        }
    }

    /// Runs one frame with the keys that are held and the time that has
    /// passed since the frame before. In this order: the move timer takes the
    /// time, the heading is updated, the snake moves if the timer has
    /// completed, the head eats if the timer has completed, and the growth
    /// requests that were waiting when the frame began are served. A request
    /// that this frame raises is served by the next frame.
    pub fn frame(&mut self, keys: PressedKeys, delta: u64)
        requires
            old(self)@.wf(),
            old(self)@.frame_allowed(keys, delta),
        ensures
            final(self)@ == old(self)@.after_frame(keys, delta),
            final(self)@.wf(),
            final(self)@.growth_requests > 0 ==> final(self)@.last_tail is Some,
    {
        let due = self.growth_events.len();
        self.snake_timer(delta);
        self.snake_movement(keys);
        self.snake_eating();
        self.grow(due);
    }

    /// Puts one piece of food on `position`. Neither the snake nor other food
    /// on that cell is in its way.
    pub fn spawn_food(&mut self, position: Position)
        ensures
            final(self)@ == old(self)@.with_food(position),
    {
        self.foods.push(Food { position });
    }

    /// The food step: lets `delta` microseconds go into the food timer and,
    /// where that completes it, puts one piece of food on a cell of the
    /// arena. Column and row are drawn at random, each on its own.
    pub fn food_spawner(&mut self, delta: u64)
        ensures
            exists|draw_x: u32, draw_y: u32| #[trigger]
                old(self)@.after_food(delta, draw_x, draw_y) == final(self)@,
            final(self)@.food_timer == old(self)@.food_timer.ticked(delta),
            !final(self)@.food_timer.finished ==> final(self)@.foods == old(self)@.foods,
            final(self)@.food_timer.finished ==> final(self)@.foods.len()
                == old(self)@.foods.len() + 1,
            final(self)@.food_timer.finished ==> final(self)@.foods.drop_last()
                == old(self)@.foods,
            final(self)@.food_timer.finished ==> final(self)@.foods.last().position.in_arena(),
    {
        if self.food_timer.0.tick(delta) {
            let draw_x = random_draw();
            let draw_y = random_draw();
            self.spawn_food(position_from_draws(draw_x, draw_y));
            assert(self@ == old(self)@.after_food(delta, draw_x, draw_y));
            assert(self@.foods.drop_last() =~= old(self)@.foods);
        } else {
            assert(self@ == old(self)@.after_food(delta, 0, 0));
        }
    }
}

/// How the food off a cell is found piece by piece: the newest piece stays
/// if it lies elsewhere, and the rest is what the older pieces leave.
pub proof fn lemma_away_from_last(foods: Seq<Food>, cell: Position)
    ensures
        foods.len() == 0 ==> away_from(foods, cell) == foods,
        foods.len() > 0 && foods.last().position != cell ==> away_from(foods, cell) == away_from(
            foods.drop_last(),
            cell,
        ).push(foods.last()),
        foods.len() > 0 && foods.last().position == cell ==> away_from(foods, cell) == away_from(
            foods.drop_last(),
            cell,
        ),
{
    reveal(Seq::filter);
}

/// Taking the food off a cell leaves no food on it, never adds any, and
/// changes nothing when done again.
pub proof fn lemma_away_from(foods: Seq<Food>, cell: Position)
    ensures
        away_from(foods, cell).len() <= foods.len(),
        forall|i: int|
            0 <= i < away_from(foods, cell).len() ==> (#[trigger] away_from(
                foods,
                cell,
            )[i]).position != cell,
        away_from(away_from(foods, cell), cell) == away_from(foods, cell),
    decreases foods.len(),
{
    lemma_away_from_last(foods, cell);
    if foods.len() > 0 {
        lemma_away_from(foods.drop_last(), cell);
        let before = away_from(foods.drop_last(), cell);
        if foods.last().position != cell {
            let kept = before.push(foods.last());
            assert(kept.drop_last() =~= before);
            lemma_away_from_last(kept, cell);
        }
    } else {
        lemma_away_from_last(away_from(foods, cell), cell);
    }
}

} // verus!
