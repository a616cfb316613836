use snake::direction::Direction;
use snake::grid::{Position, ARENA_HEIGHT, ARENA_WIDTH};
use snake::timer::{FoodSpawnTimer, SnakeMoveTimer, Timer, FOOD_PERIOD, MOVE_PERIOD};

#[test]
fn arena_is_ten_by_ten() {
    assert_eq!(ARENA_WIDTH, 10);
    assert_eq!(ARENA_HEIGHT, 10);
}

#[test]
fn step_moves_one_cell_with_up_increasing_y() {
    let cell = Position { x: 3, y: 3 };
    assert_eq!(cell.step(Direction::Left), Position { x: 2, y: 3 });
    assert_eq!(cell.step(Direction::Right), Position { x: 4, y: 3 });
    assert_eq!(cell.step(Direction::Up), Position { x: 3, y: 4 });
    assert_eq!(cell.step(Direction::Down), Position { x: 3, y: 2 });
}

#[test]
fn step_leaves_the_arena_freely() {
    let corner = Position { x: 0, y: 0 };
    assert_eq!(corner.step(Direction::Left), Position { x: -1, y: 0 });
    assert_eq!(corner.step(Direction::Down), Position { x: 0, y: -1 });
}

#[test]
fn can_step_fails_only_at_the_end_of_the_coordinate_range() {
    let low = Position { x: i32::MIN, y: i32::MIN };
    assert!(!low.can_step(Direction::Left));
    assert!(!low.can_step(Direction::Down));
    assert!(low.can_step(Direction::Right));
    assert!(low.can_step(Direction::Up));
    let high = Position { x: i32::MAX, y: i32::MAX };
    assert!(!high.can_step(Direction::Right));
    assert!(!high.can_step(Direction::Up));
    assert!(high.can_step(Direction::Left));
    assert!(high.can_step(Direction::Down));
    assert_eq!(high.step(Direction::Left), Position { x: i32::MAX - 1, y: i32::MAX });
}

#[test]
fn default_periods() {
    assert_eq!(MOVE_PERIOD, 150_000);
    assert_eq!(FOOD_PERIOD, 1_000_000);
    assert_eq!(SnakeMoveTimer::default().0, Timer { period: 150_000, elapsed: 0, finished: false });
    assert_eq!(
        FoodSpawnTimer::default().0,
        Timer { period: 1_000_000, elapsed: 0, finished: false }
    );
}

#[test]
fn timer_completes_when_the_period_is_reached() {
    let mut timer = Timer::new(150);
    assert!(!timer.finished());
    assert!(!timer.tick(149));
    assert_eq!(timer, Timer { period: 150, elapsed: 149, finished: false });
    assert!(timer.tick(1));
    assert!(timer.finished());
    assert_eq!(timer, Timer { period: 150, elapsed: 0, finished: true });
}

#[test]
fn timer_carries_the_excess_into_the_next_round() {
    let mut timer = Timer::new(150);
    assert!(!timer.tick(100));
    assert!(timer.tick(100));
    assert_eq!(timer.elapsed, 50);
    assert!(timer.tick(100));
    assert_eq!(timer.elapsed, 0);
    assert!(!timer.tick(100));
    assert_eq!(timer.elapsed, 100);
    assert!(!timer.finished());
}

#[test]
fn timer_drops_whole_periods_of_a_long_tick() {
    let mut timer = Timer::new(150);
    assert!(timer.tick(475));
    assert_eq!(timer.elapsed, 25);
}

#[test]
fn timer_survives_the_largest_tick() {
    let mut timer = Timer::new(u64::MAX);
    assert!(!timer.tick(u64::MAX - 1));
    assert!(timer.tick(u64::MAX));
    assert_eq!(timer.elapsed, u64::MAX - 1);
    let mut timer = Timer::new(7);
    assert!(!timer.tick(6));
    assert!(timer.tick(u64::MAX));
    assert_eq!(u128::from(timer.elapsed), (u128::from(u64::MAX) + 6) % 7);
}

#[test]
fn timer_without_period_completes_on_every_tick() {
    let mut timer = Timer::new(0);
    assert!(timer.tick(0));
    assert!(timer.tick(10));
    assert_eq!(timer, Timer { period: 0, elapsed: 0, finished: true });
}

#[test]
fn timer_flag_lasts_until_the_next_tick() {
    let mut timer = Timer::new(10);
    assert!(timer.tick(10));
    assert!(timer.finished());
    assert!(!timer.tick(0));
    assert!(!timer.finished());
}
