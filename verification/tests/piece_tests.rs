use term_tetris::board::{Board, Cell, H, W};
use term_tetris::piece::{Kind, Piece};

const KINDS: [Kind; 7] = [Kind::I, Kind::O, Kind::T, Kind::S, Kind::Z, Kind::J, Kind::L];

#[test]
fn new_piece_is_at_the_spawn_position() {
    for kind in KINDS {
        assert_eq!(Piece::new(kind), Piece { kind, rot: 0, x: 3, y: 0 });
    }
}

#[test]
fn shape_tables_hold_the_fixed_layouts() {
    assert_eq!(Piece::shape(Kind::I)[0], [(0, 1), (1, 1), (2, 1), (3, 1)]);
    assert_eq!(Piece::shape(Kind::I)[1], [(2, 0), (2, 1), (2, 2), (2, 3)]);
    assert_eq!(Piece::shape(Kind::I)[3], [(1, 0), (1, 1), (1, 2), (1, 3)]);
    assert_eq!(Piece::shape(Kind::T)[0], [(1, 0), (0, 1), (1, 1), (2, 1)]);
    assert_eq!(Piece::shape(Kind::T)[2], [(0, 1), (1, 1), (2, 1), (1, 2)]);
    assert_eq!(Piece::shape(Kind::S)[3], [(0, 0), (0, 1), (1, 1), (1, 2)]);
    assert_eq!(Piece::shape(Kind::Z)[1], [(2, 0), (1, 1), (2, 1), (1, 2)]);
    assert_eq!(Piece::shape(Kind::J)[2], [(0, 1), (1, 1), (2, 1), (2, 2)]);
    assert_eq!(Piece::shape(Kind::L)[0], [(2, 0), (0, 1), (1, 1), (2, 1)]);
    assert_eq!(Piece::shape(Kind::L)[3], [(0, 0), (1, 0), (1, 1), (1, 2)]);
}

#[test]
fn square_is_the_same_in_every_state() {
    let s = Piece::shape(Kind::O);
    for r in 0..4 {
        assert_eq!(s[r], [(1, 0), (2, 0), (1, 1), (2, 1)]);
    }
}

#[test]
fn every_shape_has_four_distinct_cells_in_a_box_of_four() {
    for kind in KINDS {
        let s = Piece::shape(kind);
        for r in 0..4 {
            for i in 0..4 {
                assert!((0..4).contains(&s[r][i].0) && (0..4).contains(&s[r][i].1));
                for j in 0..i {
                    assert_ne!(s[r][i], s[r][j]);
                }
            }
        }
    }
}

#[test]
fn blocks_follow_kind_and_rotation() {
    let p = Piece { kind: Kind::J, rot: 1, x: 5, y: 5 };
    assert_eq!(p.blocks(), [(1, 0), (2, 0), (1, 1), (1, 2)]);
    let q = Piece { kind: Kind::Z, rot: 3, x: -4, y: 100 };
    assert_eq!(q.blocks(), [(1, 0), (0, 1), (1, 1), (0, 2)]);
}

#[test]
fn try_move_commits_a_legal_move() {
    let b = Board::new();
    let mut p = Piece::new(Kind::T);
    assert!(p.try_move(&b, -1, 0));
    assert_eq!(p, Piece { kind: Kind::T, rot: 0, x: 2, y: 0 });
    assert!(p.try_move(&b, 2, 3));
    assert_eq!(p, Piece { kind: Kind::T, rot: 0, x: 4, y: 3 });
}

#[test]
fn try_move_refused_leaves_the_piece_alone() {
    let mut b = Board::new();
    let mut p = Piece { kind: Kind::T, rot: 2, x: 0, y: 4 };
    let before = p;
    assert!(!p.try_move(&b, -1, 0));
    assert_eq!(p, before);
    assert!(!p.try_move(&b, 0, 20));
    assert_eq!(p, before);
    b.set(1, 7, Some(Cell { kind: Kind::O }));
    assert!(!p.try_move(&b, 0, 1));
    assert_eq!(p, before);
    assert!(p.try_move(&b, 1, 1));
}

#[test]
fn try_move_beyond_the_coordinate_range_is_refused() {
    let b = Board::new();
    let mut p = Piece::new(Kind::S);
    assert!(!p.try_move(&b, i32::MAX, 0));
    assert!(!p.try_move(&b, 0, i32::MAX));
    assert!(!p.try_move(&b, i32::MIN, i32::MIN));
    assert_eq!(p, Piece::new(Kind::S));
}

#[test]
fn try_rotate_in_place_when_free() {
    let b = Board::new();
    let mut p = Piece { kind: Kind::T, rot: 0, x: 4, y: 5 };
    assert!(p.try_rotate(&b, true));
    assert_eq!(p, Piece { kind: Kind::T, rot: 1, x: 4, y: 5 });
    assert!(p.try_rotate(&b, false));
    assert_eq!(p, Piece { kind: Kind::T, rot: 0, x: 4, y: 5 });
    assert!(p.try_rotate(&b, false));
    assert_eq!(p, Piece { kind: Kind::T, rot: 3, x: 4, y: 5 });
    assert!(p.try_rotate(&b, true));
    assert!(p.try_rotate(&b, true));
    assert_eq!(p.rot, 1);
    assert!(p.try_rotate(&b, true));
    assert!(p.try_rotate(&b, true));
    assert_eq!(p, Piece { kind: Kind::T, rot: 3, x: 4, y: 5 });
}

#[test]
fn try_rotate_prefers_left_before_right() {
    let mut b = Board::new();
    b.set(5, 7, Some(Cell { kind: Kind::O }));
    let mut p = Piece { kind: Kind::T, rot: 0, x: 4, y: 5 };
    assert!(!b.collides(&Piece { kind: Kind::T, rot: 1, x: 5, y: 5 }));
    assert!(b.collides(&Piece { kind: Kind::T, rot: 1, x: 4, y: 5 }));
    assert!(p.try_rotate(&b, true));
    assert_eq!(p, Piece { kind: Kind::T, rot: 1, x: 3, y: 5 });
}

#[test]
fn try_rotate_one_right_when_left_is_a_wall() {
    let b = Board::new();
    let mut p = Piece { kind: Kind::I, rot: 3, x: -1, y: 6 };
    assert!(!b.collides(&p));
    assert!(p.try_rotate(&b, true));
    assert_eq!(p, Piece { kind: Kind::I, rot: 0, x: 0, y: 6 });
}

#[test]
fn try_rotate_two_right_as_the_last_resort() {
    let b = Board::new();
    let mut p = Piece { kind: Kind::I, rot: 1, x: -2, y: 6 };
    assert!(!b.collides(&p));
    assert!(p.try_rotate(&b, true));
    assert_eq!(p, Piece { kind: Kind::I, rot: 2, x: 0, y: 6 });
}

#[test]
fn try_rotate_two_left_when_nearer_shifts_collide() {
    let mut b = Board::new();
    // The turned bar lies in row 7. Columns 4 and 5 are taken there, which
    // rules out the shifts 0, -1 and +1 and leaves columns 0 to 3 free.
    b.set(5, 7, Some(Cell { kind: Kind::O }));
    b.set(4, 7, Some(Cell { kind: Kind::O }));
    let mut p = Piece { kind: Kind::I, rot: 3, x: 2, y: 5 };
    assert!(!b.collides(&p));
    assert!(p.try_rotate(&b, false));
    assert_eq!(p, Piece { kind: Kind::I, rot: 2, x: 0, y: 5 });
}

#[test]
fn try_rotate_refused_leaves_the_piece_alone() {
    let mut b = Board::new();
    for y in 0..H as i32 {
        for x in 1..W as i32 {
            b.set(x, y, Some(Cell { kind: Kind::Z }));
        }
    }
    let mut p = Piece { kind: Kind::I, rot: 3, x: -1, y: 3 };
    assert!(!b.collides(&p));
    let before = p;
    assert!(!p.try_rotate(&b, true));
    assert_eq!(p, before);
    assert!(!p.try_rotate(&b, false));
    assert_eq!(p, before);
}
