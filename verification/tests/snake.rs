use snake_game::{Direction, DirectionName, Position, Snake};

#[test]
fn snake_new_has_four_segments_in_row_six() {
    let snake = Snake::new();
    assert_eq!(
        snake.body(),
        &vec![
            Position { x: 5, y: 6 },
            Position { x: 4, y: 6 },
            Position { x: 3, y: 6 },
            Position { x: 2, y: 6 },
        ]
    );
    assert_eq!(snake.len(), 4);
    assert_eq!(snake.head(), Position { x: 5, y: 6 });
    assert_eq!(snake.tail(), Position { x: 2, y: 6 });
}

#[test]
fn snake_new_moves_right() {
    assert_eq!(Snake::new().direction(), Direction { vx: 1, vy: 0 });
}

#[test]
fn set_direction_name_up_points_to_smaller_rows() {
    let mut snake = Snake::new();
    snake.set_direction_name(DirectionName::Up);
    assert_eq!(snake.direction(), Direction { vx: 0, vy: -1 });
}

#[test]
fn set_direction_name_down_points_to_larger_rows() {
    let mut snake = Snake::new();
    snake.set_direction_name(DirectionName::Down);
    assert_eq!(snake.direction(), Direction { vx: 0, vy: 1 });
}

#[test]
fn set_direction_name_left_and_right() {
    let mut snake = Snake::new();
    snake.set_direction_name(DirectionName::Left);
    assert_eq!(snake.direction(), Direction { vx: -1, vy: 0 });
    snake.set_direction_name(DirectionName::Right);
    assert_eq!(snake.direction(), Direction { vx: 1, vy: 0 });
}

#[test]
fn set_direction_name_accepts_a_reversal_and_keeps_the_body() {
    let mut snake = Snake::new();
    let before = snake.body().clone();
    snake.set_direction_name(DirectionName::Left);
    assert_eq!(snake.body(), &before);
}

#[test]
fn has_index_finds_each_segment_row_major() {
    let snake = Snake::new();
    // index = y * width + x
    assert!(snake.has_index(6 * 64 + 5, 64));
    assert!(snake.has_index(6 * 64 + 4, 64));
    assert!(snake.has_index(6 * 64 + 3, 64));
    assert!(snake.has_index(6 * 64 + 2, 64));
}

#[test]
fn has_index_misses_cells_beside_the_snake() {
    let snake = Snake::new();
    assert!(!snake.has_index(6 * 64 + 1, 64));
    assert!(!snake.has_index(6 * 64 + 6, 64));
    assert!(!snake.has_index(5 * 64 + 5, 64));
    assert!(!snake.has_index(0, 64));
}

#[test]
fn has_index_goes_by_the_given_width() {
    let snake = Snake::new();
    assert!(snake.has_index(6 * 10 + 5, 10));
    assert!(!snake.has_index(6 * 64 + 5, 10));
    // with width 0 every row falls onto the first
    assert!(snake.has_index(5, 0));
    assert!(snake.has_index(2, 0));
    assert!(!snake.has_index(6, 0));
}

#[test]
fn has_index_does_not_overflow_on_the_widest_board() {
    let snake = Snake::new();
    // 6 * 4294967295 + 5 does not fit in 32 bits, so no index matches it,
    // not even the one it would wrap to
    assert!(!snake.has_index(u32::MAX, u32::MAX));
}

#[test]
fn contains_tells_segments_from_other_cells() {
    let snake = Snake::new();
    assert!(snake.contains(Position { x: 5, y: 6 }));
    assert!(snake.contains(Position { x: 2, y: 6 }));
    assert!(!snake.contains(Position { x: 6, y: 6 }));
    assert!(!snake.contains(Position { x: 6, y: 5 }));
}
