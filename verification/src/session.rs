//! One sitting at the game, frame by frame: a key is taken, gravity pulls
//! when its delay has passed, and the screen is brought up to date by
//! repainting only what changed.

use vstd::prelude::*;
use crate::board::H;
use crate::game::{gravity_delay, gravity_delay_ms, max_action_gain, Game};
use crate::input::{binding, decode_key, Action, Key};
use crate::piece::{
    lemma_legal_lies_on_board, lemma_offsets_in_box, lies_on_board, placed_cell,
    placement_collides, Kind, Piece,
};
use crate::render::{
    board_ops, draw_board, draw_hud, draw_piece, draw_ui, erase_ops, erase_piece, hud_ops,
    piece_ops, ui_ops, DrawOp,
};

verus! {

/// The game together with what the screen shows of it.
#[derive(Clone, Copy, Debug, PartialEq, Eq)]
pub struct Session {
    pub game: Game,
    /// The piece as it was last painted, if it is still on the screen.
    pub last_drawn: Option<Piece>,
    /// Whether the board changed since it was last painted.
    pub board_dirty: bool,
}

/// What one frame asks of the caller.
#[derive(Debug, PartialEq, Eq)]
pub struct Frame {
    /// Whether the session goes on.
    pub running: bool,
    /// Whether gravity pulled, so that its timer starts anew.
    pub ticked: bool,
    /// What to paint, in order.
    pub ops: Vec<DrawOp>,
}

/// The action that a frame's input asks for; no key asks for nothing.
pub open spec fn asked(key: Option<(Key, bool)>) -> Action {
    match key {
        Some(k) => binding(k.0, k.1),
        None => Action::Ignore,
    }
}

/// What a repaint paints: the whole board only where it changed; blanks
/// over the piece as it was last painted; the piece as it is; the counters.
pub open spec fn painted(s: Session) -> Seq<DrawOp> {
    (if s.board_dirty {
        board_ops(s.game.board)
    } else {
        Seq::empty()
    }) + (match s.last_drawn {
        Some(p) => erase_ops(p),
        None => Seq::empty(),
    }) + piece_ops(s.game.cur) + hud_ops(s.game)
}

/// On an empty board a fresh piece of any kind is legal.
pub proof fn lemma_fresh_piece_is_legal(g: Game, first: Kind, next: Kind)
    requires
        g.is_fresh(first, next),
    ensures
        !g.board.collides_spec(g.cur),
{
    lemma_offsets_in_box(first, 0);
    assert forall|i: int| 0 <= i < 4 implies !g.board.blocked(
        (#[trigger] placed_cell(first, 0, 3, 0, i)).0,
        placed_cell(first, 0, 3, 0, i).1,
    ) by {
        let c = placed_cell(first, 0, 3, 0, i);
        assert(g.board.cell(c.0, c.1) is None);
    }
}

impl Session {
    /// The game goes on, its piece is legal, and the piece that the screen
    /// still shows lies on the board.
    pub open spec fn wf(&self) -> bool {
        &&& self.game.wf()
        &&& !self.game.over
        &&& !self.game.board.collides_spec(self.game.cur)
        &&& match self.last_drawn {
            Some(p) => p.wf() && lies_on_board(p),
            None => true,
        }
    }

    /// The counters are far enough from the limits of their types for one
    /// more frame.
    pub open spec fn has_room(&self) -> bool {
        &&& self.game.score + max_action_gain() + 1000 * self.game.level <= u64::MAX
        &&& self.game.lines + H <= u32::MAX
    }

    /// Whether the counters leave room for one more frame.
    pub fn room_left(&self) -> (r: bool)
        ensures
            r == self.has_room(),
    {
        let need: u64 = 46 + 1000 * (self.game.level as u64);
        self.game.score <= u64::MAX - need && self.game.lines <= u32::MAX - 20
    }

    /// Starts a session on a game that goes on and whose piece is legal.
    /// Returns the session and the first full painting: the surroundings,
    /// the board, the piece.
    pub fn start(game: Game) -> (r: (Session, Vec<DrawOp>))
        requires
            game.wf(),
            !game.over,
            !game.board.collides_spec(game.cur),
        ensures
            r.0.game == game,
            r.0.last_drawn == Some(game.cur),
            !r.0.board_dirty,
            r.0.wf(),
            r.1@ == ui_ops(game) + board_ops(game.board) + piece_ops(game.cur),
    {
        let mut ops = draw_ui(&game);
        let mut board = draw_board(&game.board);
        ops.append(&mut board);
        let mut piece = draw_piece(&game.cur);
        ops.append(&mut piece);
        let s = Session { game, last_drawn: Some(game.cur), board_dirty: false };
        proof {
            lemma_legal_lies_on_board(game.board, game.cur);
        }
        (s, ops)
    }

    /// Starts a session on a new game with pieces drawn at random.
    pub fn new() -> (r: (Session, Vec<DrawOp>))
        ensures
            r.0.game.is_fresh(r.0.game.cur.kind, r.0.game.next),
            r.0.last_drawn == Some(r.0.game.cur),
            !r.0.board_dirty,
            r.0.wf(),
            r.1@ == ui_ops(r.0.game) + board_ops(r.0.game.board) + piece_ops(r.0.game.cur),
    {
        let game = Game::new();
        proof {
            lemma_fresh_piece_is_legal(game, game.cur.kind, game.next);
        }
        Session::start(game)
    }

    /// Brings the screen up to date and remembers what it now shows.
    pub fn paint(&mut self) -> (ops: Vec<DrawOp>)
        requires
            old(self).wf(),
        ensures
            ops@ == painted(*old(self)),
            final(self).game == old(self).game,
            final(self).last_drawn == Some(old(self).game.cur),
            !final(self).board_dirty,
            final(self).wf(),
    {
        let mut ops: Vec<DrawOp> = Vec::new();
        if self.board_dirty {
            let mut board = draw_board(&self.game.board);
            ops.append(&mut board);
            self.board_dirty = false;
        }
        match self.last_drawn {
            Some(prev) => {
                let mut wiped = erase_piece(&prev);
                ops.append(&mut wiped);
            },
            None => {},
        }
        let mut piece = draw_piece(&self.game.cur);
        ops.append(&mut piece);
        let mut hud = draw_hud(&self.game);
        ops.append(&mut hud);
        self.last_drawn = Some(self.game.cur);
        proof {
            lemma_legal_lies_on_board(self.game.board, self.game.cur);
            assert(ops@ =~= painted(*old(self)));
        }
        ops
    }

    /// One frame. The key, if there is one, is applied first; a quit ends
    /// the session at once. Then, where `elapsed_ms` has reached the gravity
    /// delay of the level, gravity pulls; a piece that cannot sink is locked,
    /// and if its successor collides the session ends without a repaint.
    /// Otherwise the screen is brought up to date.
    pub fn step(&mut self, key: Option<(Key, bool)>, elapsed_ms: u64) -> (f: Frame)
        requires
            old(self).wf(),
            old(self).has_room(),
        ensures
            ({
                let action = asked(key);
                let mid = old(self).game.acted(action);
                let due = elapsed_ms >= gravity_delay(mid.level as int);
                let locked = due && placement_collides(
                    mid.board,
                    mid.cur.kind,
                    mid.cur.rot as int,
                    mid.cur.x as int,
                    mid.cur.y + 1,
                );
                let shown = Session {
                    game: final(self).game,
                    last_drawn: if locked {
                        None
                    } else {
                        old(self).last_drawn
                    },
                    board_dirty: old(self).board_dirty || locked,
                };
                if action == Action::Quit {
                    !f.running && !f.ticked && f.ops@.len() == 0 && *final(self) == *old(self)
                } else {
                    &&& f.ticked == due
                    &&& final(self).game.score >= old(self).game.score
                    &&& final(self).game.level >= old(self).game.level
                    &&& final(self).game.lines >= old(self).game.lines
                    &&& due ==> mid.ticks_to(final(self).game.next, final(self).game)
                    &&& !due ==> final(self).game == mid
                    &&& f.running == !final(self).game.over
                    &&& f.running ==> f.ops@ == painted(shown) && final(self).last_drawn == Some(
                        final(self).game.cur,
                    ) && !final(self).board_dirty && final(self).wf()
                    &&& !f.running ==> f.ops@.len() == 0 && final(self).last_drawn == shown.last_drawn
                        && final(self).board_dirty == shown.board_dirty
                }
            }),
    {
        let action = match key {
            Some((k, ctrl)) => decode_key(k, ctrl),
            None => Action::Ignore,
        };
        if self.game.apply_action(action) {
            return Frame { running: false, ticked: false, ops: Vec::new() };
        }
        let mut ticked = false;
        if elapsed_ms >= gravity_delay_ms(self.game.level) {
            ticked = true;
            if self.game.gravity_tick() {
                self.last_drawn = None;
                self.board_dirty = true;
                if self.game.over {
                    return Frame { running: false, ticked, ops: Vec::new() };
                }
            }
        }
        let ops = self.paint();
        Frame { running: true, ticked, ops }
    }
}

} // verus!
