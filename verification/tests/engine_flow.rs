use tetris_core::engine::{Engine, MoveKind, TopOut};
use tetris_core::geometry::Coordinate;
use tetris_core::matrix::{Color, Matrix, WIDTH};
use tetris_core::piece::Kind;

fn coord(x: usize, y: usize) -> Coordinate {
    Coordinate { x, y }
}

fn cell_of(engine: &Engine, x: usize, y: usize) -> Option<Color> {
    let snapshot = engine.cells();
    snapshot[y * WIDTH + x].1
}

#[test]
fn bag_yields_each_kind_once_per_seven_draws() {
    let mut engine = Engine::new();
    let mut drawn: Vec<Kind> = Vec::new();
    for _ in 0..7 {
        drawn.push(engine.next_kind());
    }
    for kind in Kind::all() {
        let count = drawn.iter().filter(|k| **k == kind).count();
        assert_eq!(count, 1, "expected exactly one draw of {:?}", kind);
    }
    // The next seven draws are again one of each.
    let mut second: Vec<Kind> = Vec::new();
    for _ in 0..7 {
        second.push(engine.next_kind());
    }
    for kind in Kind::all() {
        assert_eq!(second.iter().filter(|k| **k == kind).count(), 1);
    }
}

#[test]
fn move_left_at_the_wall_fails_and_leaves_the_cursor() {
    let mut engine = Engine::new();
    engine.spawn_kind(Kind::T).expect("spawn on a blank field");
    // The T spawns with its leftmost cell at column 3.
    assert_eq!(engine.move_cursor(MoveKind::Left), Ok(()));
    assert_eq!(engine.move_cursor(MoveKind::Left), Ok(()));
    assert_eq!(engine.move_cursor(MoveKind::Left), Ok(()));
    let (cells, _) = engine.cursor_info().expect("a piece is falling");
    assert_eq!(cells.iter().map(|c| c.x).min(), Some(0));

    assert_eq!(engine.move_cursor(MoveKind::Right), Ok(()));
    assert_eq!(engine.move_cursor(MoveKind::Left), Ok(()));

    // At the wall the move fails and the cursor does not change.
    let before = engine.cursor_info();
    assert_eq!(engine.move_cursor(MoveKind::Left), Err(()));
    assert_eq!(engine.cursor_info(), before);
}

#[test]
fn move_with_no_cursor_is_a_no_op_success() {
    let mut engine = Engine::new();
    assert_eq!(engine.move_cursor(MoveKind::Left), Ok(()));
    assert_eq!(engine.move_cursor(MoveKind::Right), Ok(()));
    assert!(engine.cursor_info().is_none());
}

#[test]
fn hard_drop_lands_a_t_piece_on_the_floor() {
    let mut engine = Engine::new();
    engine.spawn_kind(Kind::T).expect("spawn on a blank field");
    assert_eq!(engine.hard_drop(), Ok(()));
    assert!(engine.cursor_info().is_none());
    // The T rests with its lowest cells on row 0.
    assert_eq!(cell_of(&engine, 3, 0), Some(Color::Purple));
    assert_eq!(cell_of(&engine, 4, 0), Some(Color::Purple));
    assert_eq!(cell_of(&engine, 5, 0), Some(Color::Purple));
    assert_eq!(cell_of(&engine, 4, 1), Some(Color::Purple));
    assert_eq!(cell_of(&engine, 3, 1), None);
    assert_eq!(cell_of(&engine, 4, 2), None);
}

#[test]
fn hard_drop_stacks_on_previous_pieces() {
    let mut engine = Engine::new();
    engine.spawn_kind(Kind::O).expect("spawn on a blank field");
    engine.hard_drop().expect("room on the floor");
    engine.spawn_kind(Kind::O).expect("cursor was consumed");
    engine.hard_drop().expect("room on the stack");
    // The O covers columns 4..=5; two drops stack to rows 0..=3.
    for y in 0..4 {
        assert_eq!(cell_of(&engine, 4, y), Some(Color::Yellow));
        assert_eq!(cell_of(&engine, 5, y), Some(Color::Yellow));
    }
    assert_eq!(cell_of(&engine, 4, 4), None);
}

#[test]
fn hard_drop_without_room_is_a_top_out() {
    let mut matrix = Matrix::blank();
    // Occupy a cell just below the spawn cells, so the piece cannot fall
    // and still sticks out above the ceiling.
    matrix.set_cell(coord(4, 18), Some(Color::Green));
    let mut engine = Engine::with_matrix(matrix);
    engine.spawn_kind(Kind::T).expect("spawn cells are free");
    let before = engine.cursor_info();
    assert_eq!(engine.hard_drop(), Err(TopOut));
    // Nothing changed: the piece is still falling where it was.
    assert_eq!(engine.cursor_info(), before);
    assert_eq!(cell_of(&engine, 4, 18), Some(Color::Green));
    assert_eq!(cell_of(&engine, 3, 19), None);
}

#[test]
fn spawn_on_occupied_spawn_cells_is_a_top_out() {
    let mut matrix = Matrix::blank();
    matrix.set_cell(coord(4, 19), Some(Color::Green));
    let mut engine = Engine::with_matrix(matrix);
    assert_eq!(engine.spawn_kind(Kind::T), Err(TopOut));
    assert!(engine.cursor_info().is_none());
}

#[test]
fn ticking_down_to_the_bottom_then_placing() {
    let mut engine = Engine::new();
    engine.spawn_kind(Kind::S).expect("spawn on a blank field");
    assert!(!engine.cursor_has_hit_bottom());
    let mut steps: u32 = 0;
    while !engine.cursor_has_hit_bottom() {
        engine.tick_down();
        steps += 1;
        assert!(steps <= 20, "the piece must reach the floor");
    }
    assert!(engine.cursor_placeable());
    engine.place_cursor();
    assert!(engine.cursor_info().is_none());
    assert_eq!(cell_of(&engine, 3, 0), Some(Color::Green));
    assert_eq!(engine.line_clear(), Vec::<usize>::new());
}

#[test]
fn line_clear_removes_full_rows_and_shifts_the_stack() {
    let mut matrix = Matrix::blank();
    for x in 0..WIDTH {
        matrix.set_cell(coord(x, 0), Some(Color::Red));
    }
    matrix.set_cell(coord(9, 1), Some(Color::Blue));
    let mut engine = Engine::with_matrix(matrix);
    assert_eq!(engine.full_rows(), vec![0]);
    assert_eq!(engine.line_clear(), vec![0]);
    assert_eq!(cell_of(&engine, 9, 0), Some(Color::Blue));
    assert_eq!(cell_of(&engine, 0, 0), None);
    assert_eq!(engine.full_rows(), Vec::<usize>::new());
}

#[test]
fn drop_time_follows_the_gravity_curve() {
    let mut engine = Engine::new();
    // Level 1: (0.8 - 0 * 0.007) ^ 0 seconds = 1 second.
    assert_eq!(engine.drop_time(), 1_000_000_000);
    // Level 2: 0.793 ^ 1 seconds.
    engine.set_level(2);
    assert_eq!(engine.drop_time(), 793_000_000);
    assert!(793_000_000 < 1_000_000_000u64);
    // Level 3: 0.786 ^ 2 seconds, truncated to whole nanoseconds.
    engine.set_level(3);
    assert_eq!(engine.drop_time(), 617_796_000);
    // The curve keeps falling.
    engine.set_level(4);
    assert!(engine.drop_time() < 617_796_000);
}
