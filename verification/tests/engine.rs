use snake_engine::Cell;
use snake_engine::Direction;
use snake_engine::Game;

fn fresh(width: u32, height: u32) -> Game {
    Game::new(width, height).unwrap()
}

#[test]
fn construction_rejects_zero_width() {
    assert!(Game::new(0, 10).is_none());
}

#[test]
fn construction_rejects_zero_height() {
    assert!(Game::new(10, 0).is_none());
}

#[test]
fn construction_rejects_snake_that_cannot_fit_one_row() {
    // Four segments starting at column 1 need at least five columns.
    assert!(Game::new(4, 10).is_none());
    // The snake sits in the second row, so one row is not enough.
    assert!(Game::new(10, 1).is_none());
}

#[test]
fn construction_initial_state() {
    let g = fresh(10, 10);
    assert_eq!(g.snake, vec![11, 12, 13, 14]);
    assert_eq!(g.direction, Direction::Right);
    assert_eq!(g.apple, None);
    assert!(!g.is_stopped());
}

#[test]
fn get_index_is_row_major() {
    let g = fresh(10, 10);
    assert_eq!(g.get_index(0, 0), 0);
    assert_eq!(g.get_index(2, 3), 23);
    assert_eq!(g.get_index(9, 9), 99);
}

#[test]
fn is_snake_reports_membership() {
    let g = fresh(10, 10);
    assert!(g.is_snake(11));
    assert!(g.is_snake(14));
    assert!(!g.is_snake(10));
    assert!(!g.is_snake(15));
}

#[test]
fn classify_reports_each_cell_kind() {
    let mut g = fresh(10, 10);
    assert!(g.place_apple_at(55));
    assert_eq!(g.classify(55), Cell::Apple);
    assert_eq!(g.classify(12), Cell::Snake);
    assert_eq!(g.classify(0), Cell::Space);
}

#[test]
fn place_apple_at_rejects_snake_and_outside_cells() {
    let mut g = fresh(10, 10);
    assert!(!g.place_apple_at(12));
    assert_eq!(g.apple, None);
    assert!(!g.place_apple_at(100));
    assert_eq!(g.apple, None);
    assert!(g.place_apple_at(99));
    assert_eq!(g.apple, Some(99));
}

#[test]
fn place_apple_lands_on_a_free_cell() {
    let mut g = fresh(10, 10);
    g.place_apple();
    let a = g.apple.expect("a fresh board has free cells");
    assert!(a < 100);
    assert!(!g.is_snake(a));
    assert!(!g.is_stopped());
    // Relocating keeps the invariant as well.
    g.place_apple();
    let b = g.apple.expect("a fresh board has free cells");
    assert!(b < 100);
    assert!(!g.is_snake(b));
}

#[test]
fn place_apple_on_a_full_board_stops_the_game() {
    // A board the snake fills completely: placement has nowhere to go,
    // which is the win policy — the apple becomes undefined and the game
    // stops.
    let g0 = fresh(5, 2);
    let full = Game {
        width: g0.width,
        height: g0.height,
        snake: vec![0, 1, 2, 3, 4, 5, 6, 7, 8, 9],
        apple: None,
        stop: false,
        direction: Direction::Right,
    };
    let mut g = full;
    g.place_apple();
    assert_eq!(g.apple, None);
    assert!(g.is_stopped());
}

#[test]
fn growth_tick_moves_head_onto_apple() {
    let mut g = fresh(10, 10);
    assert!(g.place_apple_at(15));
    g.tick();
    assert_eq!(g.snake, vec![11, 12, 13, 14, 15]);
    assert_eq!(g.snake.len(), 5);
    assert!(!g.is_stopped());
    let a = g.apple.expect("94 cells are still free");
    for cell in [11u32, 12, 13, 14, 15] {
        assert_ne!(a, cell);
    }
    assert!(a < 100);
}

#[test]
fn normal_tick_keeps_length() {
    let mut g = fresh(10, 10);
    assert!(g.place_apple_at(50));
    g.tick();
    assert_eq!(g.snake, vec![12, 13, 14, 15]);
    assert_eq!(g.snake.len(), 4);
    assert_eq!(g.apple, Some(50));
    assert!(!g.is_stopped());
}

#[test]
fn reversal_is_rejected_for_all_four_directions() {
    let mut g = fresh(10, 10);
    // Right never turns into Left.
    g.set_direction(Direction::Left);
    assert_eq!(g.direction, Direction::Right);
    // Down never turns into Up.
    g.set_direction(Direction::Down);
    assert_eq!(g.direction, Direction::Down);
    g.set_direction(Direction::Up);
    assert_eq!(g.direction, Direction::Down);
    // Left never turns into Right.
    g.set_direction(Direction::Left);
    assert_eq!(g.direction, Direction::Left);
    g.set_direction(Direction::Right);
    assert_eq!(g.direction, Direction::Left);
    // Up never turns into Down.
    g.set_direction(Direction::Up);
    assert_eq!(g.direction, Direction::Up);
    g.set_direction(Direction::Down);
    assert_eq!(g.direction, Direction::Up);
}

#[test]
fn last_accepted_direction_before_a_tick_wins() {
    let mut g = fresh(10, 10);
    g.set_direction(Direction::Up);
    g.set_direction(Direction::Left);
    g.set_direction(Direction::Down);
    assert_eq!(g.direction, Direction::Down);
    g.tick();
    assert_eq!(g.snake, vec![12, 13, 14, 24]);
}

#[test]
fn wall_breach_up_from_the_top_row() {
    // Grid 5 by 5: drive the head to cell 0, then ask for Up.
    let mut g = fresh(5, 5);
    assert_eq!(g.snake, vec![6, 7, 8, 9]);
    g.set_direction(Direction::Up);
    g.tick();
    assert_eq!(g.snake, vec![7, 8, 9, 4]);
    g.set_direction(Direction::Left);
    for _ in 0..4 {
        g.tick();
    }
    assert_eq!(g.snake, vec![3, 2, 1, 0]);
    assert!(!g.is_stopped());
    g.set_direction(Direction::Up);
    g.tick();
    assert!(g.is_stopped());
    assert_eq!(g.snake, vec![3, 2, 1, 0]);
}

#[test]
fn wall_breach_left_from_cell_zero() {
    // The Left request from cell 0 would underflow the index; the tick
    // detects it before any arithmetic.
    let mut g = fresh(5, 5);
    g.set_direction(Direction::Up);
    g.tick();
    g.set_direction(Direction::Left);
    for _ in 0..4 {
        g.tick();
    }
    assert_eq!(g.snake, vec![3, 2, 1, 0]);
    g.tick();
    assert!(g.is_stopped());
    assert_eq!(g.snake, vec![3, 2, 1, 0]);
}

#[test]
fn row_wrap_right_is_detected_not_wrapped() {
    // Grid 5 by 5: head at cell 4, the last column of row 0; moving Right
    // would alias to cell 5, column 0 of row 1.
    let mut g = fresh(5, 5);
    g.set_direction(Direction::Up);
    g.tick();
    assert_eq!(g.snake, vec![7, 8, 9, 4]);
    g.set_direction(Direction::Right);
    g.tick();
    assert!(g.is_stopped());
    assert_eq!(g.snake, vec![7, 8, 9, 4]);
}

#[test]
fn row_wrap_left_is_detected_not_wrapped() {
    // Head at column 0 of row 3; moving Left would alias to the last
    // column of row 2.
    let mut g = fresh(10, 10);
    g.set_direction(Direction::Down);
    g.tick();
    g.tick();
    assert_eq!(g.snake, vec![13, 14, 24, 34]);
    g.set_direction(Direction::Left);
    for _ in 0..4 {
        g.tick();
    }
    assert_eq!(g.snake, vec![33, 32, 31, 30]);
    assert!(!g.is_stopped());
    g.tick();
    assert!(g.is_stopped());
    assert_eq!(g.snake, vec![33, 32, 31, 30]);
}

#[test]
fn bottom_breach_is_detected() {
    let mut g = fresh(5, 5);
    g.set_direction(Direction::Down);
    for _ in 0..3 {
        g.tick();
    }
    assert_eq!(g.snake, vec![9, 14, 19, 24]);
    g.tick();
    assert!(g.is_stopped());
    assert_eq!(g.snake, vec![9, 14, 19, 24]);
}

#[test]
fn self_overlap_is_detected() {
    let mut g = fresh(10, 10);
    g.set_direction(Direction::Up);
    g.tick();
    assert_eq!(g.snake, vec![12, 13, 14, 4]);
    g.set_direction(Direction::Left);
    g.tick();
    assert_eq!(g.snake, vec![13, 14, 4, 3]);
    g.set_direction(Direction::Down);
    // The cell below 3 is 13, still part of the body.
    g.tick();
    assert!(g.is_stopped());
    assert_eq!(g.snake, vec![13, 14, 4, 3]);
}

#[test]
fn snake_never_overlaps_itself_after_ticks() {
    let mut g = fresh(10, 10);
    assert!(g.place_apple_at(15));
    g.tick();
    g.set_direction(Direction::Down);
    g.tick();
    g.set_direction(Direction::Left);
    g.tick();
    for k1 in 0..g.snake.len() {
        for k2 in 0..g.snake.len() {
            if k1 != k2 {
                assert_ne!(g.snake[k1], g.snake[k2]);
            }
        }
    }
}

#[test]
fn stopped_game_never_changes_again() {
    let mut g = fresh(5, 5);
    g.set_direction(Direction::Up);
    g.tick();
    g.tick();
    assert!(g.is_stopped());
    let snake = g.snake.clone();
    let apple = g.apple;
    let direction = g.direction;
    for _ in 0..5 {
        g.tick();
        assert!(g.is_stopped());
        assert_eq!(g.snake, snake);
        assert_eq!(g.apple, apple);
        assert_eq!(g.direction, direction);
    }
}

#[test]
fn get_available_spots_lists_exactly_the_free_cells() {
    let g = fresh(5, 2);
    let spots = g.get_available_spots();
    // Cells 6..=9 hold the snake; the other six cells are free.
    assert_eq!(spots, vec![0, 1, 2, 3, 4, 5]);
}
