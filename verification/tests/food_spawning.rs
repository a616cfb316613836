use snake::food::{cell_from_draw, position_from_draws, Food};
use snake::game::Game;
use snake::grid::{Position, ARENA_HEIGHT, ARENA_WIDTH};
use snake::timer::{FoodSpawnTimer, SnakeMoveTimer, Timer};

#[test]
fn draws_are_scaled_onto_the_extent() {
    assert_eq!(cell_from_draw(0, 10), 0);
    assert_eq!(cell_from_draw(u32::MAX, 10), 9);
    assert_eq!(cell_from_draw(1 << 31, 10), 5);
    assert_eq!(cell_from_draw(429_496_729, 10), 0);
    assert_eq!(cell_from_draw(429_496_730, 10), 1);
    assert_eq!(cell_from_draw(3_865_470_567, 10), 9);
    assert_eq!(cell_from_draw(3_865_470_566, 10), 8);
    assert_eq!(cell_from_draw(u32::MAX, 1), 0);
    assert_eq!(cell_from_draw(u32::MAX, u32::MAX), u32::MAX - 1);
    assert_eq!(cell_from_draw(12345, 0), 0);
}

#[test]
fn every_tenth_of_the_draws_gives_one_cell() {
    for cell in 0u64..10 {
        let low = ((cell << 32) + 9) / 10;
        let high = (((cell + 1) << 32) - 1) / 10;
        assert_eq!(u64::from(cell_from_draw(low as u32, 10)), cell);
        assert_eq!(u64::from(cell_from_draw(high as u32, 10)), cell);
    }
}

#[test]
fn two_draws_give_column_and_row() {
    assert_eq!(position_from_draws(0, u32::MAX), Position { x: 0, y: 9 });
    assert_eq!(position_from_draws(u32::MAX, 0), Position { x: 9, y: 0 });
    assert_eq!(position_from_draws(1 << 31, 1 << 30), Position { x: 5, y: 2 });
}

#[test]
fn no_food_before_the_food_timer_completes() {
    let mut game = Game::new(SnakeMoveTimer::default(), FoodSpawnTimer::default());
    game.food_spawner(999_999);
    assert!(game.foods.is_empty());
    assert_eq!(game.food_timer.0, Timer { period: 1_000_000, elapsed: 999_999, finished: false });
    game.food_spawner(1);
    assert_eq!(game.foods.len(), 1);
    assert_eq!(game.food_timer.0, Timer { period: 1_000_000, elapsed: 0, finished: true });
    game.food_spawner(0);
    assert_eq!(game.foods.len(), 1);
}

#[test]
fn food_spawner_leaves_snake_and_move_timer_alone() {
    let mut game = Game::new(SnakeMoveTimer::default(), FoodSpawnTimer::default());
    game.spawn_snake();
    game.food_spawner(1_000_000);
    assert_eq!(game.segments.0, vec![Position { x: 3, y: 3 }, Position { x: 3, y: 2 }]);
    assert_eq!(game.move_timer, SnakeMoveTimer::default());
    assert!(game.growth_events.is_empty());
}

#[test]
fn spawned_food_always_lies_inside_the_arena() {
    let mut game = Game::new(SnakeMoveTimer::default(), FoodSpawnTimer(Timer::new(1)));
    game.spawn_snake();
    for round in 1..=2000usize {
        let before: Vec<Food> = game.foods.clone();
        game.food_spawner(1);
        assert_eq!(game.foods.len(), round);
        assert_eq!(game.foods[..round - 1], before[..]);
        let cell = game.foods[round - 1].position;
        assert!(0 <= cell.x && cell.x < ARENA_WIDTH as i32);
        assert!(0 <= cell.y && cell.y < ARENA_HEIGHT as i32);
    }
}

#[test]
fn spawned_food_is_not_always_on_the_same_cell() {
    let mut game = Game::new(SnakeMoveTimer::default(), FoodSpawnTimer(Timer::new(1)));
    for _ in 0..500 {
        game.food_spawner(1);
    }
    let first = game.foods[0];
    assert!(game.foods.iter().any(|food| *food != first));
}
