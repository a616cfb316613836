//! Interval timers that pace the moves of the snake and the arrival of food.
//!
//! All times are whole microseconds.

use vstd::prelude::*;

verus! {

/// Microseconds between two moves of the snake, unless configured otherwise.
pub const MOVE_PERIOD: u64 = 150_000;

/// Microseconds between two arrivals of food.
pub const FOOD_PERIOD: u64 = 1_000_000;

/// A repeating interval timer. It adds up the time that passes from tick to
/// tick and completes on each tick that brings the sum up to its period;
/// what goes beyond a whole number of periods is carried into the next
/// round. A timer whose period is zero completes on every tick.
#[derive(Clone, Copy, Debug, PartialEq, Eq, Structural)]
pub struct Timer {
    /// Length of one round.
    pub period: u64,
    /// Time gathered in the current round.
    pub elapsed: u64,
    /// Whether the latest tick completed a round.
    pub finished: bool,
}

impl Timer {
    /// The timer after `delta` more microseconds.
    pub open spec fn ticked(self, delta: u64) -> Timer {
        let total = self.elapsed + delta;
        if total >= self.period {
            Timer {
                period: self.period,
                elapsed: if self.period == 0 { 0 } else { (total % (self.period as int)) as u64 },
                finished: true,
            }
        } else {
            Timer { period: self.period, elapsed: total as u64, finished: false }
        }
    }

    /// A timer of the given period that has gathered no time yet.
    pub fn new(period: u64) -> (timer: Timer)
        ensures
            timer == (Timer { period, elapsed: 0, finished: false }),
    {
        Timer { period, elapsed: 0, finished: false }
    }

    /// Whether the latest tick completed a round.
    pub fn finished(&self) -> (done: bool)
        ensures
            done == self.finished,
    {
        self.finished
    }

    /// Lets `delta` microseconds pass and tells whether that completed a
    /// round.
    pub fn tick(&mut self, delta: u64) -> (done: bool)
        ensures
            *final(self) == old(self).ticked(delta),
            done == final(self).finished,
            done == (old(self).elapsed + delta >= old(self).period),
            final(self).period > 0 ==> final(self).elapsed < final(self).period,
    {
        let total: u128 = self.elapsed as u128 + delta as u128;
        if total >= self.period as u128 {
            if self.period == 0 {
                self.elapsed = 0;
            } else {
                self.elapsed = (total % (self.period as u128)) as u64;
            }
            self.finished = true;
        } else {
            self.elapsed = total as u64;
            self.finished = false;
        }
        self.finished
    }
}

/// Paces the moves of the snake.
#[derive(Clone, Copy, Debug, PartialEq, Eq, Structural)]
pub struct SnakeMoveTimer(pub Timer);

/// Paces the arrival of food.
#[derive(Clone, Copy, Debug, PartialEq, Eq, Structural)]
pub struct FoodSpawnTimer(pub Timer);

impl Default for SnakeMoveTimer {
    /// A timer that completes every 150 milliseconds.
    fn default() -> (timer: SnakeMoveTimer)
        ensures
            timer.0 == (Timer { period: MOVE_PERIOD, elapsed: 0, finished: false }),
    {
        SnakeMoveTimer(Timer::new(MOVE_PERIOD))
    }
}

impl Default for FoodSpawnTimer {
    /// A timer that completes every second.
    fn default() -> (timer: FoodSpawnTimer)
        ensures
            timer.0 == (Timer { period: FOOD_PERIOD, elapsed: 0, finished: false }),
    {
        FoodSpawnTimer(Timer::new(FOOD_PERIOD))
    }
}

/// The time that a tick carries over is what its round leaves: once the
/// period is positive, the gathered time stays below it, and a tick that
/// does not complete a round only adds `delta` to it.
pub proof fn lemma_ticked(timer: Timer, delta: u64)
    ensures
        timer.ticked(delta).period == timer.period,
        timer.ticked(delta).finished == (timer.elapsed + delta >= timer.period),
        timer.period > 0 ==> timer.ticked(delta).elapsed < timer.period,
        !timer.ticked(delta).finished ==> timer.ticked(delta).elapsed == timer.elapsed + delta,
        timer.period > 0 ==> (timer.elapsed + delta - timer.ticked(delta).elapsed) % (
        timer.period as int) == 0,
{
    if timer.period > 0 {
        let total = timer.elapsed + delta;
        let period = timer.period as int;
        let carried = timer.elapsed + delta - timer.ticked(delta).elapsed;
        if total >= period {
            vstd::arithmetic::div_mod::lemma_fundamental_div_mod(total, period);
            vstd::arithmetic::div_mod::lemma_mod_multiples_basic(total / period, period);
            assert(0 <= total % period < period);
            assert(carried == (total / period) * period) by (nonlinear_arith)
                requires
                    total == period * (total / period) + total % period,
                    carried == total - total % period,
            ;
            assert(carried % period == 0);
        } else {
            assert(carried == 0);
            vstd::arithmetic::div_mod::lemma_small_mod(0, period as nat);
            assert(carried % period == 0);
        }
    }
}

} // verus!
