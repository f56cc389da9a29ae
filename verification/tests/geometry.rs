use snake_game::{add_u32_i32, Cell, Direction, DirectionName, Position, UniverseTopology};
use snake_game::{GRID_HEIGHT, GRID_WIDTH};

#[test]
fn board_is_64_by_64() {
    assert_eq!(GRID_WIDTH, 64);
    assert_eq!(GRID_HEIGHT, 64);
}

#[test]
fn add_u32_i32_wraps_a_step_off_the_right_edge() {
    assert_eq!(add_u32_i32(63, 1, 64), 0);
}

#[test]
fn add_u32_i32_wraps_a_step_off_the_left_edge() {
    assert_eq!(add_u32_i32(0, -1, 64), 63);
}

#[test]
fn add_u32_i32_leaves_inner_coordinates_alone() {
    assert_eq!(add_u32_i32(5, 0, 64), 5);
    assert_eq!(add_u32_i32(5, 1, 64), 6);
    assert_eq!(add_u32_i32(5, -1, 64), 4);
}

#[test]
fn add_u32_i32_reduces_large_negative_sums_to_nonnegative_remainders() {
    // 10 - 25 = -15 = -3 * 7 + 6
    assert_eq!(add_u32_i32(10, -25, 7), 6);
    assert_eq!(add_u32_i32(0, i32::MIN, 64), 0);
    assert_eq!(add_u32_i32(0, i32::MIN, 1000), 352);
}

#[test]
fn add_u32_i32_takes_the_widest_operands() {
    // 4294967295 + 2147483647 = 6442450942
    assert_eq!(add_u32_i32(u32::MAX, i32::MAX, 1000), 942);
    assert_eq!(add_u32_i32(u32::MAX, i32::MAX, u32::MAX), 2147483647);
    assert_eq!(add_u32_i32(7, 3, 1), 0);
}

#[test]
fn positions_compare_by_coordinates() {
    assert_eq!(Position { x: 3, y: 4 }, Position { x: 3, y: 4 });
    assert_ne!(Position { x: 3, y: 4 }, Position { x: 4, y: 3 });
    assert_ne!(Direction { vx: 1, vy: 0 }, Direction { vx: 0, vy: 1 });
    assert_ne!(Cell::Alive, Cell::Dead);
    assert_ne!(UniverseTopology::Flat, UniverseTopology::Toroidal);
    assert_ne!(DirectionName::Up, DirectionName::Down);
}
