use term_tetris::board::{Board, Cell, H, W};
use term_tetris::piece::{Kind, Piece};

fn cell(kind: Kind) -> Option<Cell> {
    Some(Cell { kind })
}

fn fill_row(b: &mut Board, y: i32, kind: Kind) {
    for x in 0..W as i32 {
        b.set(x, y, cell(kind));
    }
}

#[test]
fn new_board_is_empty() {
    let b = Board::new();
    for y in 0..H as i32 {
        for x in 0..W as i32 {
            assert_eq!(b.get(x, y), None);
        }
    }
}

#[test]
fn inside_is_the_board_rectangle() {
    assert!(Board::inside(0, 0));
    assert!(Board::inside(9, 19));
    assert!(!Board::inside(-1, 0));
    assert!(!Board::inside(0, -1));
    assert!(!Board::inside(10, 0));
    assert!(!Board::inside(0, 20));
    assert!(!Board::inside(i32::MAX, i32::MIN));
}

#[test]
fn get_off_the_board_is_empty() {
    let mut b = Board::new();
    fill_row(&mut b, 0, Kind::T);
    fill_row(&mut b, 19, Kind::T);
    assert_eq!(b.get(-1, 0), None);
    assert_eq!(b.get(10, 0), None);
    assert_eq!(b.get(0, 20), None);
    assert_eq!(b.get(0, -1), None);
    assert_eq!(b.get(0, 0), cell(Kind::T));
}

#[test]
fn set_writes_one_cell_and_skips_off_board() {
    let mut b = Board::new();
    b.set(4, 7, cell(Kind::S));
    assert_eq!(b.get(4, 7), cell(Kind::S));
    assert_eq!(b.get(7, 4), None);
    let before = b;
    b.set(-1, 3, cell(Kind::Z));
    b.set(10, 3, cell(Kind::Z));
    b.set(3, 20, cell(Kind::Z));
    b.set(3, -1, cell(Kind::Z));
    assert_eq!(b, before);
    b.set(4, 7, None);
    assert_eq!(b, Board::new());
}

#[test]
fn collides_off_board_or_occupied() {
    let mut b = Board::new();
    let p = Piece { kind: Kind::T, rot: 0, x: 3, y: 0 };
    assert!(!b.collides(&p));
    assert!(b.collides(&Piece { x: -1, ..p }));
    assert!(!b.collides(&Piece { x: 0, ..p }));
    assert!(!b.collides(&Piece { x: 7, ..p }));
    assert!(b.collides(&Piece { x: 8, ..p }));
    assert!(!b.collides(&Piece { y: 18, ..p }));
    assert!(b.collides(&Piece { y: 19, ..p }));
    assert!(b.collides(&Piece { y: -1, ..p }));
    b.set(5, 1, cell(Kind::I));
    assert!(b.collides(&p));
    assert!(!b.collides(&Piece { x: 0, ..p }));
    b.set(5, 1, None);
    b.set(3, 0, cell(Kind::I));
    assert!(!b.collides(&p));
}

#[test]
fn collides_at_the_limits_of_the_coordinates() {
    let b = Board::new();
    assert!(b.collides(&Piece { kind: Kind::I, rot: 0, x: i32::MAX, y: 0 }));
    assert!(b.collides(&Piece { kind: Kind::I, rot: 1, x: 0, y: i32::MAX }));
    assert!(b.collides(&Piece { kind: Kind::L, rot: 3, x: i32::MIN, y: i32::MIN }));
}

#[test]
fn lock_piece_writes_four_cells_of_its_kind() {
    let mut b = Board::new();
    let p = Piece { kind: Kind::L, rot: 0, x: 2, y: 17 };
    b.lock_piece(&p);
    let mut expected = Board::new();
    expected.set(4, 17, cell(Kind::L));
    expected.set(2, 18, cell(Kind::L));
    expected.set(3, 18, cell(Kind::L));
    expected.set(4, 18, cell(Kind::L));
    assert_eq!(b, expected);
}

#[test]
fn lock_piece_skips_cells_off_the_board() {
    let mut b = Board::new();
    let p = Piece { kind: Kind::I, rot: 0, x: 8, y: 0 };
    b.lock_piece(&p);
    let mut expected = Board::new();
    expected.set(8, 1, cell(Kind::I));
    expected.set(9, 1, cell(Kind::I));
    assert_eq!(b, expected);
}

#[test]
fn row_is_full_needs_every_column() {
    let mut b = Board::new();
    fill_row(&mut b, 6, Kind::J);
    assert!(b.row_is_full(6));
    assert!(!b.row_is_full(5));
    b.set(9, 6, None);
    assert!(!b.row_is_full(6));
}

#[test]
fn clear_lines_rows_two_and_five() {
    let mut b = Board::new();
    for y in 0..H as i32 {
        b.set(y % 10, y, cell(Kind::S));
        if y >= 10 {
            b.set((y + 3) % 10, y, cell(Kind::Z));
        }
    }
    fill_row(&mut b, 2, Kind::I);
    fill_row(&mut b, 5, Kind::O);
    let before = b;
    assert_eq!(b.clear_lines(), 2);
    let empty: [Option<Cell>; W] = [None; W];
    assert_eq!(b.grid[0], empty);
    assert_eq!(b.grid[1], empty);
    assert_eq!(b.grid[2], before.grid[0]);
    assert_eq!(b.grid[3], before.grid[1]);
    assert_eq!(b.grid[4], before.grid[3]);
    assert_eq!(b.grid[5], before.grid[4]);
    for y in 6..H {
        assert_eq!(b.grid[y], before.grid[y]);
    }
    assert_eq!(b.grid[H - 1], before.grid[H - 1]);
    assert_eq!(b.grid[H - 2], before.grid[H - 2]);
}

#[test]
fn clear_lines_without_full_rows_changes_nothing() {
    let mut b = Board::new();
    for y in 0..H as i32 {
        for x in 0..9 {
            b.set(x, y, cell(Kind::T));
        }
    }
    let before = b;
    assert_eq!(b.clear_lines(), 0);
    assert_eq!(b, before);
}

#[test]
fn clear_lines_four_at_the_bottom() {
    let mut b = Board::new();
    for y in 16..20 {
        fill_row(&mut b, y, Kind::I);
    }
    b.set(0, 15, cell(Kind::J));
    assert_eq!(b.clear_lines(), 4);
    let mut expected = Board::new();
    expected.set(0, 19, cell(Kind::J));
    assert_eq!(b, expected);
}

#[test]
fn clear_lines_takes_every_full_row() {
    let mut b = Board::new();
    for y in 0..H as i32 {
        fill_row(&mut b, y, Kind::O);
    }
    assert_eq!(b.clear_lines(), 20);
    assert_eq!(b, Board::new());
}

#[test]
fn clear_lines_keeps_the_order_of_the_rest() {
    let mut b = Board::new();
    b.set(1, 17, cell(Kind::T));
    fill_row(&mut b, 18, Kind::I);
    b.set(2, 19, cell(Kind::L));
    assert_eq!(b.clear_lines(), 1);
    let mut expected = Board::new();
    expected.set(1, 18, cell(Kind::T));
    expected.set(2, 19, cell(Kind::L));
    assert_eq!(b, expected);
}
