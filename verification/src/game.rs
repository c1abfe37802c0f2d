//! The rules of a game: spawning, dropping, locking, scoring and levels.

use vstd::prelude::*;
use crate::board::{compacted, grid_with_piece, kept_rows, Board, Grid, H};
use crate::input::Action;
use crate::piece::{
    fall, lemma_far_placement_collides, placement_collides, rotated, shifted, Kind, Piece,
};

verus! {

/// The state of one game.
#[derive(Clone, Copy, Debug, PartialEq, Eq)]
pub struct Game {
    pub board: Board,
    pub cur: Piece,
    pub next: Kind,
    pub score: u64,
    pub level: u32,
    pub lines: u32,
    pub over: bool,
}

/// The seven kinds, as the list from which pieces are drawn.
pub open spec fn all_kinds() -> Seq<Kind> {
    seq![Kind::I, Kind::O, Kind::T, Kind::S, Kind::Z, Kind::J, Kind::L]
}

/// Base points for clearing `n` rows at once.
pub open spec fn line_points(n: int) -> int {
    if n == 1 {
        100
    } else if n == 2 {
        300
    } else if n == 3 {
        500
    } else if n == 4 {
        800
    } else {
        1000
    }
}

/// The score after `cleared` rows went at once at `level`.
pub open spec fn score_after(score: int, level: int, cleared: int) -> int {
    if cleared > 0 {
        score + line_points(cleared) * level
    } else {
        score
    }
}

/// The level after a clear of `cleared` rows brought the total to `lines`:
/// one higher where the tens of `lines` have reached the level, and never
/// more than one higher.
pub open spec fn level_after(level: int, lines: int, cleared: int) -> int {
    if cleared > 0 && lines / 10 >= level {
        level + 1
    } else {
        level
    }
}

/// Milliseconds between two gravity ticks at `level`: 800 at level 1, 45
/// less for each further level, and 125 from level 16 on.
pub open spec fn gravity_delay(level: int) -> int {
    let above = if level >= 1 {
        level - 1
    } else {
        0
    };
    800 - 45 * if above < 15 {
        above
    } else {
        15
    }
}

/// How many full rows the grid holds.
pub open spec fn full_rows(g: Grid) -> int {
    g.len() - kept_rows(g).len()
}

/// Draws one element of `kinds` at random, through
/// `rand::seq::IndexedRandom::choose` on the thread's generator
/// (`rand::rng`). Believed, not proved: an empty list gives `None`, any
/// other gives one of its elements. Which one is left open. The generator
/// seeds itself from the operating system on first use and gives up if
/// that fails; nothing here rules that out.
#[verifier::external_body]
fn choose_kind(kinds: &[Kind]) -> (r: Option<Kind>)
    ensures
        kinds@.len() == 0 ==> r is None,
        kinds@.len() > 0 ==> r is Some && kinds@.contains(r.unwrap()),
{
    let mut rng = rand::rng();
    rand::seq::IndexedRandom::choose(kinds, &mut rng).copied()
}

/// Draws one of the seven kinds at random.
pub fn random_kind() -> (k: Kind)
    ensures
        all_kinds().contains(k),
{
    let kinds = [Kind::I, Kind::O, Kind::T, Kind::S, Kind::Z, Kind::J, Kind::L];
    assert(kinds@ =~= all_kinds());
    choose_kind(kinds.as_slice()).unwrap()
}

/// The gravity delay at `level`, in milliseconds.
pub fn gravity_delay_ms(level: u32) -> (ms: u64)
    ensures
        ms == gravity_delay(level as int),
        125 <= ms <= 800,
{
    let base: u64 = 800;
    let above: u32 = level.saturating_sub(1);
    let capped: u32 = if above < 15 {
        above
    } else {
        15
    };
    let step: u64 = capped as u64 * 45;
    base.saturating_sub(step)
}

/// Lets the piece sink as far as it goes. Returns the piece at rest and the
/// number of rows it sank.
pub fn hard_drop(board: &Board, p: Piece) -> (r: (Piece, i32))
    requires
        p.wf(),
    ensures
        r.0 == (Piece { kind: p.kind, rot: p.rot, x: p.x, y: (p.y + r.1) as i32 }),
        r.1 == fall(*board, p.kind, p.rot as int, p.x as int, p.y as int),
        0 <= r.1 <= H + 3,
        forall|k: int|
            1 <= k <= r.1 ==> !#[trigger] placement_collides(
                *board,
                p.kind,
                p.rot as int,
                p.x as int,
                p.y + k,
            ),
        placement_collides(*board, p.kind, p.rot as int, p.x as int, p.y + r.1 + 1),
{
    let mut q = p;
    let mut rows: i32 = 0;
    loop
        invariant
            p.wf(),
            q == (Piece { kind: p.kind, rot: p.rot, x: p.x, y: (p.y + rows) as i32 }),
            q.y == p.y + rows,
            0 <= rows <= H + 3,
            rows > 0 ==> -3 <= p.y + 1 && q.y < H,
            fall(*board, p.kind, p.rot as int, p.x as int, p.y as int) == rows + fall(
                *board,
                p.kind,
                p.rot as int,
                p.x as int,
                q.y as int,
            ),
            forall|k: int|
                1 <= k <= rows ==> !#[trigger] placement_collides(
                    *board,
                    p.kind,
                    p.rot as int,
                    p.x as int,
                    p.y + k,
                ),
        ensures
            q == (Piece { kind: p.kind, rot: p.rot, x: p.x, y: (p.y + rows) as i32 }),
            0 <= rows <= H + 3,
            rows == fall(*board, p.kind, p.rot as int, p.x as int, p.y as int),
            forall|k: int|
                1 <= k <= rows ==> !#[trigger] placement_collides(
                    *board,
                    p.kind,
                    p.rot as int,
                    p.x as int,
                    p.y + k,
                ),
            placement_collides(*board, p.kind, p.rot as int, p.x as int, p.y + rows + 1),
        decreases H - q.y,
    {
        proof {
            lemma_far_placement_collides(*board, p.kind, p.rot as int, p.x as int, q.y + 1);
        }
        let mut t = q;
        if !t.try_move(board, 0, 1) {
            break ;
        }
        q = t;
        rows += 1;
    }
    (q, rows)
}

/// The sinking distance is determined by the rows below: where the next `n`
/// placements down are legal and the one after is not, the piece sinks
/// exactly `n` rows.
pub proof fn lemma_fall_exact(board: Board, kind: Kind, rot: int, x: int, y: int, n: int)
    requires
        n >= 0,
        forall|k: int| 1 <= k <= n ==> !#[trigger] placement_collides(board, kind, rot, x, y + k),
        placement_collides(board, kind, rot, x, y + n + 1),
    ensures
        fall(board, kind, rot, x, y) == n,
    decreases n,
{
    if n > 0 {
        assert(!placement_collides(board, kind, rot, x, y + 1));
        lemma_far_placement_collides(board, kind, rot, x, y + 1);
        assert forall|k: int| 1 <= k <= n - 1 implies !#[trigger] placement_collides(
            board,
            kind,
            rot,
            x,
            y + 1 + k,
        ) by {
            assert(!placement_collides(board, kind, rot, x, y + (k + 1)));
        }
        lemma_fall_exact(board, kind, rot, x, y + 1, n - 1);
    }
}

/// The most that one action can add to the score: a hard drop over the
/// longest possible fall.
pub open spec fn max_action_gain() -> int {
    2 * (H + 3)
}

/// The piece after a hard drop: sunk as far as it goes.
pub open spec fn dropped(board: Board, p: Piece) -> Piece {
    Piece {
        kind: p.kind,
        rot: p.rot,
        x: p.x,
        y: (p.y + fall(board, p.kind, p.rot as int, p.x as int, p.y as int)) as i32,
    }
}

/// The base points for `cleared` rows at once.
pub fn points_for(cleared: usize) -> (pts: u64)
    ensures
        pts == line_points(cleared as int),
{
    match cleared {
        1 => 100,
        2 => 300,
        3 => 500,
        4 => 800,
        _ => 1000,
    }
}

impl Game {
    /// The current piece is well formed.
    pub open spec fn wf(&self) -> bool {
        self.cur.wf()
    }

    /// Whether this is the state at the start of a game with the given
    /// first piece and upcoming kind: an empty board, no points, level 1.
    pub open spec fn is_fresh(self, first: Kind, next: Kind) -> bool {
        &&& forall|x: int, y: int| self.board.cell(x, y) is None
        &&& self.cur == (Piece { kind: first, rot: 0, x: 3, y: 0 })
        &&& self.next == next
        &&& self.score == 0
        &&& self.level == 1
        &&& self.lines == 0
        &&& !self.over
    }

    /// A new game: an empty board, a first piece and an upcoming kind, each
    /// drawn at random and independently of the other, no points, level 1.
    pub fn new() -> (g: Game)
        ensures
            g.is_fresh(g.cur.kind, g.next),
            g.wf(),
    {
        let first = random_kind();
        let next = random_kind();
        Game::with_kinds(first, next)
    }

    /// A new game with the given first piece and upcoming kind.
    pub fn with_kinds(first: Kind, next: Kind) -> (g: Game)
        ensures
            g.is_fresh(first, next),
            g.wf(),
    {
        Game {
            board: Board::new(),
            cur: Piece::new(first),
            next,
            score: 0,
            level: 1,
            lines: 0,
            over: false,
        }
    }

    /// The state after the upcoming kind enters play and `upcoming` takes
    /// its place: the game is over where the new piece collides at once.
    /// The board, the score, the level and the lines stay as they are.
    pub open spec fn spawned(self, upcoming: Kind) -> Game {
        let cur = Piece { kind: self.next, rot: 0, x: 3, y: 0 };
        Game {
            board: self.board,
            cur,
            next: upcoming,
            score: self.score,
            level: self.level,
            lines: self.lines,
            over: self.over || self.board.collides_spec(cur),
        }
    }

    /// Brings the upcoming kind into play at the spawn position and makes
    /// `upcoming` the kind after it.
    pub fn spawn_with(&mut self, upcoming: Kind)
        ensures
            *final(self) == old(self).spawned(upcoming),
            final(self).wf(),
    {
        self.cur = Piece::new(self.next);
        self.next = upcoming;
        if self.board.collides(&self.cur) {
            self.over = true;
        }
    }

    /// Brings the upcoming kind into play and draws the kind after it at
    /// random.
    pub fn spawn_next(&mut self)
        ensures
            *final(self) == old(self).spawned(final(self).next),
            final(self).wf(),
    {
        let upcoming = random_kind();
        self.spawn_with(upcoming);
    }

    /// The state after `cleared` rows went at once: the lines grow by that
    /// many, the score by the base points times the level before, and the
    /// level by at most one.
    pub open spec fn scored(self, cleared: int) -> Game {
        Game {
            board: self.board,
            cur: self.cur,
            next: self.next,
            score: score_after(self.score as int, self.level as int, cleared) as u64,
            level: level_after(self.level as int, self.lines + cleared, cleared) as u32,
            lines: (self.lines + cleared) as u32,
            over: self.over,
        }
    }

    /// Books a clear of `cleared` rows.
    pub fn score_lines(&mut self, cleared: usize)
        requires
            old(self).lines + cleared <= u32::MAX,
            old(self).score + line_points(cleared as int) * old(self).level <= u64::MAX,
        ensures
            *final(self) == old(self).scored(cleared as int),
            final(self).score == score_after(
                old(self).score as int,
                old(self).level as int,
                cleared as int,
            ),
            final(self).level == level_after(
                old(self).level as int,
                old(self).lines + cleared,
                cleared as int,
            ),
            final(self).lines == old(self).lines + cleared,
            final(self).score >= old(self).score,
            old(self).level <= final(self).level <= old(self).level + 1,
    {
        if cleared > 0 {
            self.lines = self.lines + cleared as u32;
            let pts: u64 = points_for(cleared);
            assert(pts * self.level <= u64::MAX) by (nonlinear_arith)
                requires
                    pts <= 1000,
                    self.level <= u32::MAX,
            ;
            self.score = self.score + pts * (self.level as u64);
            if self.lines / 10 >= self.level {
                self.level = self.level + 1;
            }
        }
    }

    /// Whether `after` is the state once the current piece is fixed where
    /// it is: its cells are written to the board, the full rows go, and the
    /// clear is booked.
    pub open spec fn settles_to(self, after: Game) -> bool {
        let g = grid_with_piece(self.board@, self.cur);
        let booked = self.scored(full_rows(g));
        &&& after.board@ == compacted(g)
        &&& after.cur == booked.cur
        &&& after.next == booked.next
        &&& after.score == booked.score
        &&& after.level == booked.level
        &&& after.lines == booked.lines
        &&& after.over == booked.over
    }

    /// Fixes the current piece on the board, clears the full rows and books
    /// them.
    pub fn lock_and_score(&mut self)
        requires
            old(self).wf(),
            old(self).lines + H <= u32::MAX,
            old(self).score + 1000 * old(self).level <= u64::MAX,
        ensures
            old(self).settles_to(*final(self)),
            final(self).wf(),
            final(self).score >= old(self).score,
            final(self).lines >= old(self).lines,
            old(self).level <= final(self).level <= old(self).level + 1,
    {
        let p = self.cur;
        self.board.lock_piece(&p);
        let cleared = self.board.clear_lines();
        proof {
            assert(line_points(cleared as int) * self.level <= 1000 * self.level)
                by (nonlinear_arith)
                requires
                    line_points(cleared as int) <= 1000,
                    self.level >= 0,
            ;
        }
        self.score_lines(cleared);
    }

    /// The state after an action. Moves and turns are taken where the board
    /// allows them; a row of soft drop is worth one point, each row of a
    /// hard drop two. Quitting and ignored keys change nothing.
    pub open spec fn acted(self, action: Action) -> Game {
        let cur = match action {
            Action::Left => shifted(self.board, self.cur, -1, 0),
            Action::Right => shifted(self.board, self.cur, 1, 0),
            Action::SoftDrop => shifted(self.board, self.cur, 0, 1),
            Action::RotateCw => rotated(self.board, self.cur, true),
            Action::RotateCcw => rotated(self.board, self.cur, false),
            Action::HardDrop => dropped(self.board, self.cur),
            _ => self.cur,
        };
        let gain = match action {
            Action::SoftDrop => cur.y - self.cur.y,
            Action::HardDrop => 2 * (cur.y - self.cur.y),
            _ => 0,
        };
        Game {
            board: self.board,
            cur,
            next: self.next,
            score: (self.score + gain) as u64,
            level: self.level,
            lines: self.lines,
            over: self.over,
        }
    }

    /// Applies one action to the game. Returns whether it asks to quit.
    pub fn apply_action(&mut self, action: Action) -> (quit: bool)
        requires
            old(self).wf(),
            old(self).score + max_action_gain() <= u64::MAX,
        ensures
            quit == (action == Action::Quit),
            *final(self) == old(self).acted(action),
            final(self).wf(),
            old(self).score <= final(self).score <= old(self).score + max_action_gain(),
            !old(self).board.collides_spec(old(self).cur) ==> !final(self).board.collides_spec(
                final(self).cur,
            ),
    {
        match action {
            Action::Quit => {
                return true;
            },
            Action::Left => {
                self.cur.try_move(&self.board, -1, 0);
            },
            Action::Right => {
                self.cur.try_move(&self.board, 1, 0);
            },
            Action::SoftDrop => {
                if self.cur.try_move(&self.board, 0, 1) {
                    self.score = self.score + 1;
                }
            },
            Action::RotateCw => {
                self.cur.try_rotate(&self.board, true);
            },
            Action::RotateCcw => {
                self.cur.try_rotate(&self.board, false);
            },
            Action::HardDrop => {
                let (p, rows) = hard_drop(&self.board, self.cur);
                self.cur = p;
                self.score = self.score + (rows as u64) * 2;
            },
            Action::Ignore => {},
        }
        false
    }

    /// Whether `after` is the state once gravity has pulled: the piece has
    /// sunk one row where it could; where it could not, it was fixed, the
    /// clear was booked and the next piece entered, with `upcoming` behind it.
    pub open spec fn ticks_to(self, upcoming: Kind, after: Game) -> bool {
        if placement_collides(
            self.board,
            self.cur.kind,
            self.cur.rot as int,
            self.cur.x as int,
            self.cur.y + 1,
        ) {
            let g = grid_with_piece(self.board@, self.cur);
            let booked = self.scored(full_rows(g));
            &&& after.board@ == compacted(g)
            &&& after.cur == (Piece { kind: self.next, rot: 0, x: 3, y: 0 })
            &&& after.next == upcoming
            &&& after.score == booked.score
            &&& after.level == booked.level
            &&& after.lines == booked.lines
            &&& after.over == (self.over || after.board.collides_spec(after.cur))
        } else {
            after == (Game {
                board: self.board,
                cur: Piece {
                    kind: self.cur.kind,
                    rot: self.cur.rot,
                    x: self.cur.x,
                    y: (self.cur.y + 1) as i32,
                },
                next: self.next,
                score: self.score,
                level: self.level,
                lines: self.lines,
                over: self.over,
            })
        }
    }

    /// One gravity tick. Returns whether the piece was locked.
    pub fn gravity_tick(&mut self) -> (locked: bool)
        requires
            old(self).wf(),
            old(self).lines + H <= u32::MAX,
            old(self).score + 1000 * old(self).level <= u64::MAX,
        ensures
            locked == placement_collides(
                old(self).board,
                old(self).cur.kind,
                old(self).cur.rot as int,
                old(self).cur.x as int,
                old(self).cur.y + 1,
            ),
            old(self).ticks_to(final(self).next, *final(self)),
            final(self).wf(),
            final(self).score >= old(self).score,
            final(self).lines >= old(self).lines,
            old(self).level <= final(self).level <= old(self).level + 1,
            !final(self).over ==> !final(self).board.collides_spec(final(self).cur),
    {
        if self.cur.try_move(&self.board, 0, 1) {
            false
        } else {
            self.lock_and_score();
            self.spawn_next();
            true
        }
    }
}

/// The level rises by one exactly where a clear brings the total of lines
/// to ten times the level or more, and otherwise stays: from level 1 at ten
/// lines, and then not again before twenty.
pub proof fn lemma_level_threshold(level: int, lines: int, cleared: int)
    requires
        level >= 1,
        lines >= 0,
        cleared > 0,
    ensures
        level_after(level, lines, cleared) == if lines >= 10 * level {
            level + 1
        } else {
            level
        },
        level_after(1, lines, cleared) == 2 <==> lines >= 10,
        level_after(2, lines, cleared) == 3 <==> lines >= 20,
{
}

/// Two rows of soft drop through free space are worth exactly two points,
/// and change nothing but the piece's row and the score.
pub proof fn lemma_two_soft_drops(g: Game)
    requires
        g.wf(),
        g.score + 2 <= u64::MAX,
        !placement_collides(g.board, g.cur.kind, g.cur.rot as int, g.cur.x as int, g.cur.y + 1),
        !placement_collides(g.board, g.cur.kind, g.cur.rot as int, g.cur.x as int, g.cur.y + 2),
    ensures
        g.acted(Action::SoftDrop).acted(Action::SoftDrop).score == g.score + 2,
        g.acted(Action::SoftDrop).acted(Action::SoftDrop).cur == (Piece {
            kind: g.cur.kind,
            rot: g.cur.rot,
            x: g.cur.x,
            y: (g.cur.y + 2) as i32,
        }),
        g.acted(Action::SoftDrop).acted(Action::SoftDrop).board == g.board,
        g.acted(Action::SoftDrop).acted(Action::SoftDrop).level == g.level,
        g.acted(Action::SoftDrop).acted(Action::SoftDrop).lines == g.lines,
{
    lemma_far_placement_collides(g.board, g.cur.kind, g.cur.rot as int, g.cur.x as int, g.cur.y + 1);
    lemma_far_placement_collides(g.board, g.cur.kind, g.cur.rot as int, g.cur.x as int, g.cur.y + 2);
    let one = g.acted(Action::SoftDrop);
    assert(one.cur.y == g.cur.y + 1);
    assert(one.score == g.score + 1);
}

/// A hard drop through `n` free rows is worth exactly `2 * n` points and
/// leaves the piece `n` rows lower.
pub proof fn lemma_hard_drop_gain(g: Game, n: int)
    requires
        g.wf(),
        n >= 0,
        g.score + 2 * n <= u64::MAX,
        forall|k: int|
            1 <= k <= n ==> !#[trigger] placement_collides(
                g.board,
                g.cur.kind,
                g.cur.rot as int,
                g.cur.x as int,
                g.cur.y + k,
            ),
        placement_collides(g.board, g.cur.kind, g.cur.rot as int, g.cur.x as int, g.cur.y + n + 1),
    ensures
        g.acted(Action::HardDrop).score == g.score + 2 * n,
        g.acted(Action::HardDrop).cur.y == g.cur.y + n,
{
    lemma_fall_exact(g.board, g.cur.kind, g.cur.rot as int, g.cur.x as int, g.cur.y as int, n);
    if n > 0 {
        assert(!placement_collides(
            g.board,
            g.cur.kind,
            g.cur.rot as int,
            g.cur.x as int,
            g.cur.y + n,
        ));
        lemma_far_placement_collides(
            g.board,
            g.cur.kind,
            g.cur.rot as int,
            g.cur.x as int,
            g.cur.y + n,
        );
    }
}

} // verus!
