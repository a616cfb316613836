//! What holds of the game over several steps.

use vstd::prelude::*;
use crate::direction::Direction;
use crate::food::{Food, drawn_position, lemma_drawn_position_in_arena};
use crate::game::{GameView, START_X, START_Y, away_from, lemma_away_from};
use crate::grid::Position;
use crate::input::{PressedKeys, lemma_heading_settles, next_heading};
use crate::snake::{
    grown, lemma_grown, lemma_head_after_moves, lemma_segment_trails_head, moved, moved_by,
};

verus! {

impl GameView {
    /// The state after `count` movement steps with the same keys.
    pub open spec fn after_moves(self, keys: PressedKeys, count: nat) -> GameView
        decreases count,
    {
        if count == 0 {
            self
        } else {
            self.after_moves(keys, (count - 1) as nat).after_movement(keys)
        }
    }

    /// The state after `count` frames with the same keys and the same time
    /// between them.
    pub open spec fn after_frames(self, keys: PressedKeys, delta: u64, count: nat) -> GameView
        decreases count,
    {
        if count == 0 {
            self
        } else {
            self.after_frames(keys, delta, (count - 1) as nat).after_frame(keys, delta)
        }
    }
}

/// No step makes a snake shorter than two segments: movement, eating, growth
/// and a whole frame all keep a well-formed game well-formed.
pub proof fn lemma_steps_keep_wf(game: GameView, keys: PressedKeys, delta: u64, count: nat)
    requires
        game.wf(),
    ensures
        game.after_spawn().wf(),
        game.after_timer(delta).wf(),
        game.after_steering(keys).wf(),
        game.after_movement(keys).wf(),
        game.after_eating().wf(),
        game.after_growth(count).wf(),
        game.after_frame(keys, delta).wf(),
        game.after_growth(count).segments.len() >= game.segments.len(),
        game.after_frame(keys, delta).segments.len() >= game.segments.len(),
{
}

/// No update turns the heading round. Whatever keys are held, one reversal
/// key or several keys, and whether or not the move timer has completed:
/// after the heading update, after the movement step and after a whole
/// frame, the heading is not the opposite of the one before. All three give
/// the same heading, and without a head there is none before or after.
pub proof fn lemma_heading_kept_from_reversal(game: GameView, keys: PressedKeys, delta: u64)
    ensures
        game.heading matches Some(heading) ==> game.after_steering(keys).heading == Some(
            next_heading(heading, keys),
        ),
        game.heading matches Some(heading) ==> game.after_steering(keys).heading != Some(
            heading.opposite(),
        ),
        game.heading matches Some(heading) ==> game.after_movement(keys).heading != Some(
            heading.opposite(),
        ),
        game.heading matches Some(heading) ==> game.after_frame(keys, delta).heading != Some(
            heading.opposite(),
        ),
        game.after_movement(keys).heading == game.after_steering(keys).heading,
        game.after_frame(keys, delta).heading == game.after_steering(keys).heading,
        game.heading is None ==> game.after_steering(keys).heading is None,
{
}

/// A snake can grow from the moment it is placed: placing it puts the cell
/// behind its tail on record, no step takes a recorded cell away, and while
/// a cell is on record every waiting request can be served. A frame then
/// needs no more than room for the head's step.
pub proof fn lemma_tail_stays_recorded(game: GameView, keys: PressedKeys, delta: u64, count: nat)
    ensures
        game.after_spawn().last_tail == Some(
            Position { x: START_X, y: (START_Y - 2) as i32 },
        ),
        game.after_spawn().can_grow(game.after_spawn().growth_requests),
        game.last_tail is Some ==> game.after_timer(delta).last_tail is Some,
        game.last_tail is Some ==> game.after_steering(keys).last_tail is Some,
        game.last_tail is Some ==> game.after_movement(keys).last_tail is Some,
        game.last_tail is Some ==> game.after_eating().last_tail is Some,
        game.last_tail is Some ==> game.after_growth(count).last_tail is Some,
        game.last_tail is Some ==> game.after_frame(keys, delta).last_tail is Some,
        game.last_tail is Some ==> game.can_grow(game.growth_requests),
        game.last_tail is Some ==> game.frame_allowed(keys, delta) == game.after_timer(
            delta,
        ).can_move(keys),
{
}

/// Movement steps with a heading that the keys leave alone: after `count`
/// of them, with the move timer completed, the heading is the same, the
/// head is `count` unit steps along it from where it was, and the body is
/// the one that `count` moves give.
pub proof fn lemma_steady_moves(
    game: GameView,
    keys: PressedKeys,
    heading: Direction,
    count: nat,
)
    requires
        game.wf(),
        game.heading == Some(heading),
        next_heading(heading, keys) == heading,
        game.move_timer.finished,
        game.segments[0].can_step_by(heading, count),
    ensures
        game.after_moves(keys, count).heading == Some(heading),
        game.after_moves(keys, count).segments == moved_by(game.segments, heading, count),
        game.after_moves(keys, count).segments.len() == game.segments.len(),
        game.after_moves(keys, count).segments[0] == game.segments[0].step_by(heading, count),
        game.after_moves(keys, count).foods == game.foods,
        game.after_moves(keys, count).growth_requests == game.growth_requests,
        game.after_moves(keys, count).move_timer == game.move_timer,
        game.after_moves(keys, count).food_timer == game.food_timer,
        count > 0 ==> game.after_moves(keys, count).last_tail == Some(
            moved_by(game.segments, heading, (count - 1) as nat).last(),
        ),
    decreases count,
{
    lemma_head_after_moves(game.segments, heading, count);
    if count > 0 {
        let before = (count - 1) as nat;
        crate::grid::lemma_step_by_succ(game.segments[0], heading, before);
        lemma_steady_moves(game, keys, heading, before);
    }
}

/// During such movement steps every segment follows the head with a delay
/// of its index: after `count` steps, segment `index` is where the head was
/// after `count - index` steps; before the head's trail has reached it, it
/// is where the segment `count` places before it started.
pub proof fn lemma_steady_moves_trail(
    game: GameView,
    keys: PressedKeys,
    heading: Direction,
    count: nat,
    index: nat,
)
    requires
        game.wf(),
        game.heading == Some(heading),
        next_heading(heading, keys) == heading,
        game.move_timer.finished,
        game.segments[0].can_step_by(heading, count),
        index < game.segments.len(),
    ensures
        index <= count ==> game.after_moves(keys, count).segments[index as int]
            == game.after_moves(keys, (count - index) as nat).segments[0],
        index <= count ==> game.after_moves(keys, count).segments[index as int]
            == game.segments[0].step_by(heading, (count - index) as nat),
        index > count ==> game.after_moves(keys, count).segments[index as int]
            == game.segments[index - count],
{
    lemma_steady_moves(game, keys, heading, count);
    lemma_segment_trails_head(game.segments, heading, count, index);
    if index <= count {
        let earlier = (count - index) as nat;
        lemma_steady_moves(game, keys, heading, earlier);
    }
}

/// Frames in which nothing is eaten: with no food on the grid, no growth
/// request waiting and at least one period between the frames, each frame
/// is one move. After `count` frames the head is `count` unit steps along
/// the heading that the first frame settles on.
pub proof fn lemma_steady_frames(game: GameView, keys: PressedKeys, delta: u64, count: nat)
    requires
        game.wf(),
        game.heading is Some,
        game.foods.len() == 0,
        game.growth_requests == 0,
        delta >= game.move_timer.period,
        count > 0,
        game.segments[0].can_step_by(next_heading(game.heading->0, keys), count),
    ensures
        game.after_frames(keys, delta, count).heading == Some(
            next_heading(game.heading->0, keys),
        ),
        game.after_frames(keys, delta, count).segments == moved_by(
            game.segments,
            next_heading(game.heading->0, keys),
            count,
        ),
        game.after_frames(keys, delta, count).segments[0] == game.segments[0].step_by(
            next_heading(game.heading->0, keys),
            count,
        ),
        game.after_frames(keys, delta, count).foods.len() == 0,
        game.after_frames(keys, delta, count).growth_requests == 0,
        game.after_frames(keys, delta, count).move_timer.period == game.move_timer.period,
    decreases count,
{
    let heading = next_heading(game.heading->0, keys);
    lemma_heading_settles(game.heading->0, keys);
    lemma_head_after_moves(game.segments, heading, count);
    let before = (count - 1) as nat;
    crate::grid::lemma_step_by_succ(game.segments[0], heading, before);
    lemma_head_after_moves(game.segments, heading, before);
    let earlier = game.after_frames(keys, delta, before);
    if before > 0 {
        lemma_steady_frames(game, keys, delta, before);
    }
    let ticked = earlier.after_timer(delta);
    assert(ticked.move_timer.finished);
    let stepped = ticked.after_movement(keys);
    assert(stepped.segments == moved_by(game.segments, heading, count));
    assert(away_from(stepped.foods, stepped.segments[0]) == stepped.foods) by {
        crate::game::lemma_away_from_last(stepped.foods, stepped.segments[0]);
    }
    assert(stepped.after_eating().foods == stepped.foods);
    assert(stepped.after_eating().growth_requests == 0);
}

/// Food is eaten once: right after the eating step no food lies on the
/// head's cell, each piece that is gone has raised exactly one request, and
/// a second eating step finds nothing and changes nothing.
pub proof fn lemma_eating_once(game: GameView)
    requires
        game.wf(),
    ensures
        game.after_eating().growth_requests == game.growth_requests + game.eaten(),
        game.after_eating().foods.len() + game.eaten() == game.foods.len(),
        game.after_eating().eaten() == 0,
        game.after_eating().after_eating() == game.after_eating(),
        game.moves() ==> forall|i: int|
            0 <= i < game.after_eating().foods.len() ==> (
            #[trigger] game.after_eating().foods[i]).position != game.segments[0],
{
    if game.moves() {
        lemma_away_from(game.foods, game.segments[0]);
    }
}

/// Growth adds exactly one segment for each request that is served. The
/// segments that were there keep their places, every new one lies on the
/// recorded tail cell, and as many requests are gone as segments have come.
pub proof fn lemma_growth_appends(game: GameView, count: nat)
    requires
        game.can_grow(count),
    ensures
        game.after_growth(count).segments.len() == game.segments.len() + count,
        game.after_growth(count).growth_requests + count == game.growth_requests,
        game.after_growth(count).segments.subrange(0, game.segments.len() as int)
            == game.segments,
        forall|i: int|
            game.segments.len() <= i < game.segments.len() + count ==> Some(
                #[trigger] game.after_growth(count).segments[i],
            ) == game.last_tail,
        count > 0 ==> game.after_growth(count) == game.after_growth((count - 1) as nat).after_growth(
            1,
        ),
{
    if count > 0 {
        let position = game.last_tail->0;
        lemma_grown(game.segments, position, count);
        lemma_grown(game.segments, position, (count - 1) as nat);
        let before = game.after_growth((count - 1) as nat);
        lemma_grown(before.segments, position, 1);
        assert(before.after_growth(1).segments =~= game.after_growth(count).segments);
    } else {
        assert(game.segments.subrange(0, game.segments.len() as int) =~= game.segments);
    }
}

/// The requests that a frame raises are served by the frame after it. Where
/// that frame makes no move, the new segments lie on the cell that the tail
/// left in the frame of the eating, and the snake is longer by exactly the
/// number of pieces eaten.
pub proof fn lemma_growth_follows_eating(
    game: GameView,
    keys: PressedKeys,
    delta: u64,
    next_keys: PressedKeys,
    next_delta: u64,
)
    requires
        game.wf(),
        game.frame_allowed(keys, delta),
        game.after_frame(keys, delta).growth_requests > 0,
        !game.after_frame(keys, delta).move_timer.ticked(next_delta).finished,
    ensures
        game.after_frame(keys, delta).growth_requests == game.after_timer(delta).after_movement(
            keys,
        ).eaten(),
        game.after_frame(keys, delta).last_tail == Some(game.segments.last()),
        game.after_frame(keys, delta).frame_allowed(next_keys, next_delta),
        game.after_frame(keys, delta).after_frame(next_keys, next_delta).segments == grown(
            game.after_frame(keys, delta).segments,
            game.segments.last(),
            game.after_frame(keys, delta).growth_requests,
        ),
        game.after_frame(keys, delta).after_frame(next_keys, next_delta).segments.len()
            == game.after_frame(keys, delta).segments.len() + game.after_frame(
            keys,
            delta,
        ).growth_requests,
        game.after_frame(keys, delta).after_frame(next_keys, next_delta).growth_requests == 0,
{
    let fed = game.after_frame(keys, delta);
    lemma_grown(fed.segments, game.segments.last(), fed.growth_requests);
}

/// In every frame the growth step places its segments on the cell that the
/// latest move recorded. A frame that moves serves the waiting requests
/// after its own move, so their segments lie on the cell that this move has
/// just cleared.
pub proof fn lemma_growth_after_move(game: GameView, keys: PressedKeys, delta: u64)
    requires
        game.wf(),
        game.frame_allowed(keys, delta),
        game.growth_requests > 0,
        game.after_timer(delta).moves(),
    ensures
        game.after_frame(keys, delta).last_tail == Some(game.segments.last()),
        game.after_frame(keys, delta).segments == grown(
            moved(game.segments, game.after_frame(keys, delta).heading->0),
            game.segments.last(),
            game.growth_requests,
        ),
{
}

/// Food appears inside the arena, whatever is drawn, and only when the food
/// timer completes.
pub proof fn lemma_food_in_arena(game: GameView, delta: u64, draw_x: u32, draw_y: u32)
    ensures
        game.after_food(delta, draw_x, draw_y).food_timer == game.food_timer.ticked(delta),
        !game.food_timer.ticked(delta).finished ==> game.after_food(delta, draw_x, draw_y).foods
            == game.foods,
        game.food_timer.ticked(delta).finished ==> game.after_food(delta, draw_x, draw_y).foods
            == game.foods.push(Food { position: drawn_position(draw_x, draw_y) }),
        drawn_position(draw_x, draw_y).in_arena(),
{
    lemma_drawn_position_in_arena(draw_x, draw_y);
}

} // verus!
