use term_tetris::board::{Board, Cell};
use term_tetris::game::Game;
use term_tetris::input::Key;
use term_tetris::piece::{Kind, Piece};
use term_tetris::render::{draw_board, draw_hud, draw_piece, draw_ui, erase_piece, DrawOp};
use term_tetris::session::Session;

fn concat(parts: Vec<Vec<DrawOp>>) -> Vec<DrawOp> {
    let mut all = Vec::new();
    for mut p in parts {
        all.append(&mut p);
    }
    all
}

#[test]
fn start_paints_everything_once() {
    let g = Game::with_kinds(Kind::T, Kind::O);
    let (s, ops) = Session::start(g);
    assert_eq!(s, Session { game: g, last_drawn: Some(g.cur), board_dirty: false });
    assert_eq!(ops, concat(vec![draw_ui(&g), draw_board(&g.board), draw_piece(&g.cur)]));
    assert_eq!(ops.len(), 49 + 200 + 4);
}

#[test]
fn new_session_starts_a_fresh_game() {
    let (s, ops) = Session::new();
    assert_eq!(s.game, Game::with_kinds(s.game.cur.kind, s.game.next));
    assert_eq!(s.last_drawn, Some(s.game.cur));
    assert!(!s.board_dirty);
    assert_eq!(ops.len(), 253);
    assert!(s.room_left());
}

#[test]
fn idle_frame_repaints_piece_and_counters() {
    let g = Game::with_kinds(Kind::T, Kind::O);
    let (mut s, _) = Session::start(g);
    let f = s.step(None, 799);
    assert!(f.running);
    assert!(!f.ticked);
    assert_eq!(s.game, g);
    assert_eq!(f.ops, concat(vec![erase_piece(&g.cur), draw_piece(&g.cur), draw_hud(&g)]));
    assert_eq!(f.ops.len(), 11);
}

#[test]
fn quit_ends_the_session_without_painting() {
    let g = Game::with_kinds(Kind::T, Kind::O);
    let (mut s, _) = Session::start(g);
    let before = s;
    let f = s.step(Some((Key::Char('q'), false)), 5000);
    assert!(!f.running);
    assert!(!f.ticked);
    assert!(f.ops.is_empty());
    assert_eq!(s, before);
    let f = s.step(Some((Key::Char('c'), true)), 0);
    assert!(!f.running);
    let f = s.step(Some((Key::Esc, false)), 0);
    assert!(!f.running);
}

#[test]
fn a_move_wipes_the_old_cells_and_paints_the_new() {
    let g = Game::with_kinds(Kind::T, Kind::O);
    let (mut s, _) = Session::start(g);
    let f = s.step(Some((Key::Left, false)), 0);
    let moved = Piece { kind: Kind::T, rot: 0, x: 2, y: 0 };
    assert_eq!(s.game.cur, moved);
    assert_eq!(s.last_drawn, Some(moved));
    assert_eq!(f.ops, concat(vec![erase_piece(&g.cur), draw_piece(&moved), draw_hud(&g)]));
    assert_eq!(f.ops[0], DrawOp::Blank { col: 9, row: 1 });
    assert_eq!(f.ops[4], draw_piece(&moved)[0]);
}

#[test]
fn gravity_pulls_when_the_delay_has_passed() {
    let g = Game::with_kinds(Kind::T, Kind::O);
    let (mut s, _) = Session::start(g);
    let f = s.step(None, 800);
    assert!(f.running);
    assert!(f.ticked);
    assert_eq!(s.game.cur, Piece { kind: Kind::T, rot: 0, x: 3, y: 1 });
    assert!(!s.board_dirty);
    let mut fast = Game::with_kinds(Kind::T, Kind::O);
    fast.level = 16;
    let (mut s, _) = Session::start(fast);
    assert!(!s.step(None, 124).ticked);
    assert!(s.step(None, 125).ticked);
}

#[test]
fn key_and_gravity_in_one_frame() {
    let g = Game::with_kinds(Kind::T, Kind::O);
    let (mut s, _) = Session::start(g);
    let f = s.step(Some((Key::Char('s'), false)), 900);
    assert!(f.ticked);
    assert_eq!(s.game.cur.y, 2);
    assert_eq!(s.game.score, 1);
}

#[test]
fn hard_drop_then_lock_repaints_the_board() {
    let g = Game::with_kinds(Kind::I, Kind::O);
    let (mut s, _) = Session::start(g);
    let f = s.step(Some((Key::Char(' '), false)), 800);
    assert!(f.running);
    assert!(f.ticked);
    assert_eq!(s.game.score, 36);
    assert_eq!(s.game.cur, Piece::new(Kind::O));
    let mut board = Board::new();
    for x in 3..7 {
        board.set(x, 19, Some(Cell { kind: Kind::I }));
    }
    assert_eq!(s.game.board, board);
    assert_eq!(
        f.ops,
        concat(vec![draw_board(&board), draw_piece(&s.game.cur), draw_hud(&s.game)])
    );
    assert_eq!(s.last_drawn, Some(s.game.cur));
    assert!(!s.board_dirty);
}

#[test]
fn a_taken_spawn_ends_the_session_without_painting() {
    let mut g = Game::with_kinds(Kind::I, Kind::O);
    g.board.set(4, 0, Some(Cell { kind: Kind::Z }));
    g.cur = Piece { kind: Kind::I, rot: 0, x: 3, y: 18 };
    let (mut s, _) = Session::start(g);
    let f = s.step(None, 800);
    assert!(!f.running);
    assert!(f.ticked);
    assert!(f.ops.is_empty());
    assert!(s.game.over);
    assert_eq!(s.last_drawn, None);
    assert!(s.board_dirty);
}

#[test]
fn room_left_near_the_limits() {
    let mut g = Game::with_kinds(Kind::I, Kind::O);
    let (mut s, _) = Session::start(g);
    assert!(s.room_left());
    s.game.score = u64::MAX - 1046;
    assert!(s.room_left());
    s.game.score = u64::MAX - 1045;
    assert!(!s.room_left());
    g.lines = u32::MAX - 19;
    let (s, _) = Session::start(g);
    assert!(!s.room_left());
}
