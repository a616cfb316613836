use snake::direction::Direction;
use snake::input::{Key, PressedKeys};
use snake::snake::SnakeHead;

const ALL: [Direction; 4] = [Direction::Left, Direction::Up, Direction::Right, Direction::Down];

const KEYS: [Key; 8] =
    [Key::Left, Key::Right, Key::Up, Key::Down, Key::A, Key::D, Key::W, Key::S];

fn steered(direction: Direction, keys: PressedKeys) -> Direction {
    let mut head = SnakeHead { direction };
    head.steer(keys);
    head.direction
}

#[test]
fn opposite_swaps_left_with_right_and_up_with_down() {
    assert_eq!(Direction::Left.opposite(), Direction::Right);
    assert_eq!(Direction::Right.opposite(), Direction::Left);
    assert_eq!(Direction::Up.opposite(), Direction::Down);
    assert_eq!(Direction::Down.opposite(), Direction::Up);
}

#[test]
fn opposite_is_an_involution_without_fixed_point() {
    for direction in ALL {
        assert_eq!(direction.opposite().opposite(), direction);
        assert_ne!(direction.opposite(), direction);
    }
}

#[test]
fn no_key_keeps_the_heading() {
    for direction in ALL {
        assert_eq!(PressedKeys::none().requested(), None);
        assert_eq!(steered(direction, PressedKeys::none()), direction);
    }
}

#[test]
fn each_key_asks_for_its_heading() {
    let wanted = [
        (Key::Left, Direction::Left),
        (Key::A, Direction::Left),
        (Key::Right, Direction::Right),
        (Key::D, Direction::Right),
        (Key::Up, Direction::Up),
        (Key::W, Direction::Up),
        (Key::Down, Direction::Down),
        (Key::S, Direction::Down),
    ];
    for (key, direction) in wanted {
        assert_eq!(PressedKeys::none().with(key).requested(), Some(direction));
    }
}

#[test]
fn with_adds_one_key_and_keeps_the_others() {
    let keys = PressedKeys::none().with(Key::W);
    for key in KEYS {
        assert_eq!(keys.pressed(key), key == Key::W);
    }
    let keys = keys.with(Key::Left);
    for key in KEYS {
        assert_eq!(keys.pressed(key), key == Key::W || key == Key::Left);
    }
    assert!(!PressedKeys::none().pressed(Key::S));
}

#[test]
fn a_single_reversal_key_never_turns_the_snake_round() {
    let reversal = [
        (Direction::Left, Key::Right),
        (Direction::Left, Key::D),
        (Direction::Right, Key::Left),
        (Direction::Right, Key::A),
        (Direction::Up, Key::Down),
        (Direction::Up, Key::S),
        (Direction::Down, Key::Up),
        (Direction::Down, Key::W),
    ];
    for (direction, key) in reversal {
        assert_eq!(steered(direction, PressedKeys::none().with(key)), direction);
    }
}

#[test]
fn heading_is_never_reversed_by_any_set_of_keys() {
    for direction in ALL {
        for mask in 0u32..256 {
            let mut keys = PressedKeys::none();
            for (bit, key) in KEYS.iter().enumerate() {
                if mask & (1 << bit) != 0 {
                    keys = keys.with(*key);
                }
            }
            let after = steered(direction, keys);
            assert_ne!(after, direction.opposite());
            assert_eq!(steered(after, keys), after);
        }
    }
}

#[test]
fn a_sideways_key_turns_the_snake() {
    assert_eq!(steered(Direction::Up, PressedKeys::none().with(Key::Right)), Direction::Right);
    assert_eq!(steered(Direction::Up, PressedKeys::none().with(Key::A)), Direction::Left);
    assert_eq!(steered(Direction::Left, PressedKeys::none().with(Key::S)), Direction::Down);
    assert_eq!(steered(Direction::Right, PressedKeys::none().with(Key::Up)), Direction::Up);
}

#[test]
fn left_and_right_held_while_heading_up_turns_left() {
    let keys = PressedKeys::none().with(Key::Left).with(Key::Right);
    assert_eq!(keys.requested(), Some(Direction::Left));
    assert_eq!(steered(Direction::Up, keys), Direction::Left);
}

#[test]
fn keys_are_tried_in_the_order_left_right_up_down() {
    let all = PressedKeys::none().with(Key::Down).with(Key::Up).with(Key::Right).with(Key::Left);
    assert_eq!(all.requested(), Some(Direction::Left));
    let no_left = PressedKeys::none().with(Key::S).with(Key::W).with(Key::D);
    assert_eq!(no_left.requested(), Some(Direction::Right));
    let vertical = PressedKeys::none().with(Key::Down).with(Key::W);
    assert_eq!(vertical.requested(), Some(Direction::Up));
    let down = PressedKeys::none().with(Key::S);
    assert_eq!(down.requested(), Some(Direction::Down));
}

#[test]
fn the_winning_key_is_refused_when_it_reverses() {
    // Left wins over Up, but reverses a snake that heads right: the heading stays.
    let keys = PressedKeys::none().with(Key::Left).with(Key::Up);
    assert_eq!(steered(Direction::Right, keys), Direction::Right);
}
