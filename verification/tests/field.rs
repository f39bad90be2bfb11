use tetris_core::geometry::{Coordinate, Offset};
use tetris_core::matrix::{Color, Matrix, HEIGHT, WIDTH};
use tetris_core::piece::{Kind, Piece, Rotation};

fn coord(x: usize, y: usize) -> Coordinate {
    Coordinate { x, y }
}

fn t_piece_at(x: isize, y: isize) -> Piece {
    Piece {
        kind: Kind::T,
        position: Offset { x, y },
        rotation: Rotation::N,
    }
}

#[test]
fn blank_matrix_is_empty() {
    let matrix = Matrix::blank();
    for y in 0..HEIGHT {
        for x in 0..WIDTH {
            assert_eq!(matrix.cell(coord(x, y)), None);
        }
    }
    assert_eq!(matrix.full_rows(), Vec::<usize>::new());
}

#[test]
fn placeable_on_blank_field() {
    let matrix = Matrix::blank();
    assert!(matrix.is_placeable(&t_piece_at(3, 0)));
    assert!(!matrix.is_clipping(&t_piece_at(3, 0)));
}

#[test]
fn unplaceable_when_out_of_bounds() {
    let matrix = Matrix::blank();
    // Off the left edge: the cells do not resolve at all.
    assert!(!matrix.is_placeable(&t_piece_at(-1, 0)));
    assert!(matrix.is_clipping(&t_piece_at(-1, 0)));
    // Below the floor.
    assert!(!matrix.is_placeable(&t_piece_at(3, -2)));
    // Partly above the ceiling: rejected outright, not truncated, although
    // it does not clip.
    assert!(!matrix.is_placeable(&t_piece_at(3, 18)));
    assert!(!matrix.is_clipping(&t_piece_at(3, 18)));
}

#[test]
fn unplaceable_when_overlapping_an_occupied_cell() {
    let mut matrix = Matrix::blank();
    matrix.set_cell(coord(4, 1), Some(Color::Green));
    // The T at (3, 0) covers (3, 1), (4, 1), (5, 1), (4, 2).
    assert!(!matrix.is_placeable(&t_piece_at(3, 0)));
    assert!(matrix.is_clipping(&t_piece_at(3, 0)));
    // Two columns further right it no longer overlaps.
    assert!(matrix.is_placeable(&t_piece_at(5, 0)));
}

#[test]
fn commit_paints_exactly_the_piece_cells() {
    let mut matrix = Matrix::blank();
    matrix.set_cell(coord(0, 0), Some(Color::Green));
    let piece = t_piece_at(3, 0);
    matrix.commit(&piece);
    let covered = [coord(3, 1), coord(4, 1), coord(5, 1), coord(4, 2)];
    for y in 0..HEIGHT {
        for x in 0..WIDTH {
            let c = coord(x, y);
            if covered.contains(&c) {
                assert_eq!(matrix.cell(c), Some(Color::Purple));
            } else if c == coord(0, 0) {
                assert_eq!(matrix.cell(c), Some(Color::Green));
            } else {
                assert_eq!(matrix.cell(c), None);
            }
        }
    }
}

#[test]
fn full_rows_lists_only_completed_rows_lowest_first() {
    let mut matrix = Matrix::blank();
    for x in 0..WIDTH {
        matrix.set_cell(coord(x, 7), Some(Color::Red));
        matrix.set_cell(coord(x, 3), Some(Color::Blue));
    }
    // An almost-full row does not count.
    for x in 0..WIDTH - 1 {
        matrix.set_cell(coord(x, 12), Some(Color::Cyan));
    }
    assert_eq!(matrix.full_rows(), vec![3, 7]);
}

#[test]
fn clear_rows_compacts_and_leaves_empty_rows_on_top() {
    let mut matrix = Matrix::blank();
    for x in 0..WIDTH {
        matrix.set_cell(coord(x, 3), Some(Color::Blue));
        matrix.set_cell(coord(x, 7), Some(Color::Red));
    }
    // Markers in rows that must survive, in order: below both cleared rows,
    // between them, and above both.
    matrix.set_cell(coord(0, 0), Some(Color::Green));
    matrix.set_cell(coord(1, 4), Some(Color::Yellow));
    matrix.set_cell(coord(2, 8), Some(Color::Cyan));
    matrix.set_cell(coord(3, 19), Some(Color::Orange));

    let rows = matrix.full_rows();
    assert_eq!(rows, vec![3, 7]);
    matrix.clear_rows(&rows);

    // Row 0 had no cleared row below it and stays put.
    assert_eq!(matrix.cell(coord(0, 0)), Some(Color::Green));
    // Row 4 drops one row, past cleared row 3.
    assert_eq!(matrix.cell(coord(1, 3)), Some(Color::Yellow));
    assert_eq!(matrix.cell(coord(1, 4)), None);
    // Row 8 drops two rows, past cleared rows 3 and 7.
    assert_eq!(matrix.cell(coord(2, 6)), Some(Color::Cyan));
    assert_eq!(matrix.cell(coord(2, 8)), None);
    // Row 19 drops two rows as well.
    assert_eq!(matrix.cell(coord(3, 17)), Some(Color::Orange));
    // The top two rows are empty.
    for y in HEIGHT - 2..HEIGHT {
        for x in 0..WIDTH {
            assert_eq!(matrix.cell(coord(x, y)), None);
        }
    }
    // No full row is left.
    assert_eq!(matrix.full_rows(), Vec::<usize>::new());
}

#[test]
fn cells_snapshot_is_row_major_from_the_origin() {
    let mut matrix = Matrix::blank();
    matrix.set_cell(coord(2, 1), Some(Color::Red));
    let snapshot = matrix.cells();
    assert_eq!(snapshot.len(), WIDTH * HEIGHT);
    assert_eq!(snapshot[0].0, coord(0, 0));
    assert_eq!(snapshot[1].0, coord(1, 0));
    assert_eq!(snapshot[WIDTH].0, coord(0, 1));
    assert_eq!(snapshot[WIDTH + 2], (coord(2, 1), Some(Color::Red)));
    for (c, cell) in snapshot {
        if c == coord(2, 1) {
            assert_eq!(cell, Some(Color::Red));
        } else {
            assert_eq!(cell, None);
        }
    }
}
