use tetris_core::geometry::{Coordinate, Offset};
use tetris_core::piece::{Kind, Piece, Rotation};

fn coord(x: usize, y: usize) -> Coordinate {
    Coordinate { x, y }
}

#[test]
fn s_piece_positioning() {
    let z = Piece {
        kind: Kind::Z,
        position: Offset { x: 5, y: 6 },
        rotation: Rotation::W,
    };

    assert_eq!(
        z.cells(),
        Some(vec![coord(5, 6), coord(5, 7), coord(6, 7), coord(6, 8)]),
    )
}

#[test]
fn cells_are_distinct_and_in_bounds_for_every_kind_and_rotation() {
    let rotations = [Rotation::N, Rotation::E, Rotation::S, Rotation::W];
    for kind in Kind::all() {
        for rotation in rotations {
            let piece = Piece {
                kind,
                position: Offset { x: 3, y: 5 },
                rotation,
            };
            let cells = piece.cells().expect("piece fits at (3, 5)");
            assert_eq!(cells.len(), 4);
            for i in 0..4 {
                assert!(cells[i].x < 10);
                for j in 0..i {
                    assert_ne!(cells[i], cells[j]);
                }
            }
        }
    }
}

#[test]
fn four_clockwise_rotations_restore_the_cell_set() {
    for kind in Kind::all() {
        let piece = Piece {
            kind,
            position: Offset { x: 4, y: 7 },
            rotation: Rotation::N,
        };
        let back = piece
            .rotated_cw()
            .rotated_cw()
            .rotated_cw()
            .rotated_cw();
        assert_eq!(back, piece);
        assert_eq!(back.cells(), piece.cells());
    }
}

#[test]
fn o_piece_rotation_keeps_cells() {
    let spawn = Piece {
        kind: Kind::O,
        position: Offset { x: 2, y: 3 },
        rotation: Rotation::N,
    };
    let turned = spawn.rotated_cw();
    assert_eq!(spawn.cells(), turned.cells());
}

#[test]
fn cells_fail_off_the_left_edge() {
    let piece = Piece {
        kind: Kind::T,
        position: Offset { x: -1, y: 5 },
        rotation: Rotation::N,
    };
    assert_eq!(piece.cells(), None);
}

#[test]
fn cells_fail_off_the_right_edge() {
    let piece = Piece {
        kind: Kind::I,
        position: Offset { x: 7, y: 5 },
        rotation: Rotation::N,
    };
    assert_eq!(piece.cells(), None);
}

#[test]
fn cells_fail_below_the_floor() {
    let piece = Piece {
        kind: Kind::T,
        position: Offset { x: 3, y: -2 },
        rotation: Rotation::N,
    };
    assert_eq!(piece.cells(), None);
}

#[test]
fn cells_tolerate_rows_above_the_ceiling() {
    let piece = Piece {
        kind: Kind::T,
        position: Offset { x: 3, y: 19 },
        rotation: Rotation::N,
    };
    assert_eq!(
        piece.cells(),
        Some(vec![coord(3, 20), coord(4, 20), coord(5, 20), coord(4, 21)]),
    );
}

#[test]
fn moved_by_translates_the_anchor() {
    let piece = Piece {
        kind: Kind::L,
        position: Offset { x: 2, y: 9 },
        rotation: Rotation::E,
    };
    let moved = piece.moved_by(Offset { x: 1, y: -1 });
    assert_eq!(moved.kind, piece.kind);
    assert_eq!(moved.rotation, piece.rotation);
    assert_eq!(moved.position, Offset { x: 3, y: 8 });
}

#[test]
fn grid_sizes() {
    assert_eq!(Kind::I.grid_size(), 4);
    assert_eq!(Kind::O.grid_size(), 3);
    assert_eq!(Kind::T.grid_size(), 3);
}
