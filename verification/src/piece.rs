//! The falling piece: the shape catalog, and moves and rotations that are
//! committed only where the board allows them.

use vstd::prelude::*;
use crate::board::{on_board, Board, H, W};

verus! {

/// The seven piece shapes.
#[derive(Copy, Clone, Debug, PartialEq, Eq, Structural)]
pub enum Kind {
    I,
    O,
    T,
    S,
    Z,
    J,
    L,
}

/// A piece on (or off) the board: a shape, one of four rotation states and
/// the position of its anchor.
#[derive(Copy, Clone, Debug, PartialEq, Eq, Structural)]
pub struct Piece {
    pub kind: Kind,
    pub rot: u8,
    pub x: i32,
    pub y: i32,
}

/// Column at which every new piece appears.
pub const SPAWN_X: i32 = 3;

/// Row at which every new piece appears.
pub const SPAWN_Y: i32 = 0;

/// The catalog: the four cells of `kind` in rotation state `rot`, relative to
/// the anchor, as (column, row) pairs. The layouts are fixed data.
pub open spec fn offsets(kind: Kind, rot: int) -> Seq<(int, int)> {
    match kind {
        Kind::I => if rot == 0 {
            seq![(0, 1), (1, 1), (2, 1), (3, 1)]
        } else if rot == 1 {
            seq![(2, 0), (2, 1), (2, 2), (2, 3)]
        } else if rot == 2 {
            seq![(0, 2), (1, 2), (2, 2), (3, 2)]
        } else {
            seq![(1, 0), (1, 1), (1, 2), (1, 3)]
        },
        Kind::O => seq![(1, 0), (2, 0), (1, 1), (2, 1)],
        Kind::T => if rot == 0 {
            seq![(1, 0), (0, 1), (1, 1), (2, 1)]
        } else if rot == 1 {
            seq![(1, 0), (1, 1), (2, 1), (1, 2)]
        } else if rot == 2 {
            seq![(0, 1), (1, 1), (2, 1), (1, 2)]
        } else {
            seq![(1, 0), (0, 1), (1, 1), (1, 2)]
        },
        Kind::S => if rot == 0 {
            seq![(1, 0), (2, 0), (0, 1), (1, 1)]
        } else if rot == 1 {
            seq![(1, 0), (1, 1), (2, 1), (2, 2)]
        } else if rot == 2 {
            seq![(1, 1), (2, 1), (0, 2), (1, 2)]
        } else {
            seq![(0, 0), (0, 1), (1, 1), (1, 2)]
        },
        Kind::Z => if rot == 0 {
            seq![(0, 0), (1, 0), (1, 1), (2, 1)]
        } else if rot == 1 {
            seq![(2, 0), (1, 1), (2, 1), (1, 2)]
        } else if rot == 2 {
            seq![(0, 1), (1, 1), (1, 2), (2, 2)]
        } else {
            seq![(1, 0), (0, 1), (1, 1), (0, 2)]
        },
        Kind::J => if rot == 0 {
            seq![(0, 0), (0, 1), (1, 1), (2, 1)]
        } else if rot == 1 {
            seq![(1, 0), (2, 0), (1, 1), (1, 2)]
        } else if rot == 2 {
            seq![(0, 1), (1, 1), (2, 1), (2, 2)]
        } else {
            seq![(1, 0), (1, 1), (0, 2), (1, 2)]
        },
        Kind::L => if rot == 0 {
            seq![(2, 0), (0, 1), (1, 1), (2, 1)]
        } else if rot == 1 {
            seq![(1, 0), (1, 1), (1, 2), (2, 2)]
        } else if rot == 2 {
            seq![(0, 1), (1, 1), (2, 1), (0, 2)]
        } else {
            seq![(0, 0), (1, 0), (1, 1), (1, 2)]
        },
    }
}

/// The `i`-th cell of a placement, in board coordinates.
pub open spec fn placed_cell(kind: Kind, rot: int, x: int, y: int, i: int) -> (int, int) {
    (x + offsets(kind, rot)[i].0, y + offsets(kind, rot)[i].1)
}

/// Whether the placement of `kind` in state `rot` at anchor `(x, y)` is
/// illegal on `board`: one of its four cells is off the board or occupied.
pub open spec fn placement_collides(board: Board, kind: Kind, rot: int, x: int, y: int) -> bool {
    exists|i: int|
        0 <= i < 4 && board.blocked(
            #[trigger] placed_cell(kind, rot, x, y, i).0,
            placed_cell(kind, rot, x, y, i).1,
        )
}

/// The horizontal corrections that a rotation tries, in order of preference.
pub open spec fn kicks() -> Seq<int> {
    seq![0, -1, 1, -2, 2]
}

/// The rotation state that follows `rot` in the given direction.
pub open spec fn turned(rot: int, clockwise: bool) -> int {
    (rot + if clockwise { 1int } else { 3int }) % 4
}

/// The index of the first correction from `from` on under which the
/// placement is legal, or `None` where every remaining one collides.
pub open spec fn first_fit(board: Board, kind: Kind, rot: int, x: int, y: int, from: int) -> Option<int>
    decreases 5 - from,
{
    if from < 0 || from >= 5 {
        None
    } else if !placement_collides(board, kind, rot, x + kicks()[from], y) {
        Some(from)
    } else {
        first_fit(board, kind, rot, x, y, from + 1)
    }
}

/// Where a move by `(dx, dy)` leaves `p`: at the new position if that
/// placement is legal, and where it was if not.
pub open spec fn shifted(board: Board, p: Piece, dx: int, dy: int) -> Piece {
    if placement_collides(board, p.kind, p.rot as int, p.x + dx, p.y + dy) {
        p
    } else {
        Piece { kind: p.kind, rot: p.rot, x: (p.x + dx) as i32, y: (p.y + dy) as i32 }
    }
}

/// Where a quarter turn leaves `p`: turned and shifted by the first
/// correction that fits, or as it was where none does.
pub open spec fn rotated(board: Board, p: Piece, clockwise: bool) -> Piece {
    let rot = turned(p.rot as int, clockwise);
    match first_fit(board, p.kind, rot, p.x as int, p.y as int, 0) {
        Some(k) => Piece { kind: p.kind, rot: rot as u8, x: (p.x + kicks()[k]) as i32, y: p.y },
        None => p,
    }
}

/// How many rows a placement can sink before the next row down collides.
/// Below the last row every placement collides; naming that bound lets the
/// count end.
pub open spec fn fall(board: Board, kind: Kind, rot: int, x: int, y: int) -> int
    decreases H - y,
{
    if y + 1 >= H || placement_collides(board, kind, rot, x, y + 1) {
        0
    } else {
        1 + fall(board, kind, rot, x, y + 1)
    }
}

/// Every catalog entry has four cells, each within a 4-by-4 box at the anchor.
pub proof fn lemma_offsets_in_box(kind: Kind, rot: int)
    ensures
        offsets(kind, rot).len() == 4,
        forall|i: int|
            0 <= i < 4 ==> 0 <= (#[trigger] offsets(kind, rot)[i]).0 <= 3 && 0 <= offsets(
                kind,
                rot,
            )[i].1 <= 3,
{
}

impl Piece {
    /// The rotation state is one of the four that the catalog knows.
    pub open spec fn wf(&self) -> bool {
        self.rot < 4
    }

    /// The piece's four cells in board coordinates.
    pub open spec fn cells(&self) -> Seq<(int, int)> {
        Seq::new(4, |i: int| placed_cell(self.kind, self.rot as int, self.x as int, self.y as int, i))
    }

    /// Whether one of the piece's cells is `(x, y)`.
    pub open spec fn covers(&self, x: int, y: int) -> bool {
        exists|i: int| 0 <= i < 4 && #[trigger] self.cells()[i] == (x, y)
    }

    /// A fresh piece of the given kind at the spawn position.
    pub fn new(kind: Kind) -> (p: Piece)
        ensures
            p == (Piece { kind, rot: 0, x: SPAWN_X, y: SPAWN_Y }),
            p.wf(),
    {
        Piece { kind, rot: 0, x: SPAWN_X, y: SPAWN_Y }
    }

    /// The four rotation states of a kind, each as four relative cells.
    pub fn shape(kind: Kind) -> (s: [[(i32, i32); 4]; 4])
        ensures
            forall|r: int, i: int|
                0 <= r < 4 && 0 <= i < 4 ==> (#[trigger] s[r][i]).0 == offsets(kind, r)[i].0
                    && s[r][i].1 == offsets(kind, r)[i].1,
    {
        match kind {
            Kind::I => [
                [(0, 1), (1, 1), (2, 1), (3, 1)],
                [(2, 0), (2, 1), (2, 2), (2, 3)],
                [(0, 2), (1, 2), (2, 2), (3, 2)],
                [(1, 0), (1, 1), (1, 2), (1, 3)],
            ],
            Kind::O => [
                [(1, 0), (2, 0), (1, 1), (2, 1)],
                [(1, 0), (2, 0), (1, 1), (2, 1)],
                [(1, 0), (2, 0), (1, 1), (2, 1)],
                [(1, 0), (2, 0), (1, 1), (2, 1)],
            ],
            Kind::T => [
                [(1, 0), (0, 1), (1, 1), (2, 1)],
                [(1, 0), (1, 1), (2, 1), (1, 2)],
                [(0, 1), (1, 1), (2, 1), (1, 2)],
                [(1, 0), (0, 1), (1, 1), (1, 2)],
            ],
            Kind::S => [
                [(1, 0), (2, 0), (0, 1), (1, 1)],
                [(1, 0), (1, 1), (2, 1), (2, 2)],
                [(1, 1), (2, 1), (0, 2), (1, 2)],
                [(0, 0), (0, 1), (1, 1), (1, 2)],
            ],
            Kind::Z => [
                [(0, 0), (1, 0), (1, 1), (2, 1)],
                [(2, 0), (1, 1), (2, 1), (1, 2)],
                [(0, 1), (1, 1), (1, 2), (2, 2)],
                [(1, 0), (0, 1), (1, 1), (0, 2)],
            ],
            Kind::J => [
                [(0, 0), (0, 1), (1, 1), (2, 1)],
                [(1, 0), (2, 0), (1, 1), (1, 2)],
                [(0, 1), (1, 1), (2, 1), (2, 2)],
                [(1, 0), (1, 1), (0, 2), (1, 2)],
            ],
            Kind::L => [
                [(2, 0), (0, 1), (1, 1), (2, 1)],
                [(1, 0), (1, 1), (1, 2), (2, 2)],
                [(0, 1), (1, 1), (2, 1), (0, 2)],
                [(0, 0), (1, 0), (1, 1), (1, 2)],
            ],
        }
    }

    /// The four relative cells of the piece in its current rotation state.
    pub fn blocks(&self) -> (b: [(i32, i32); 4])
        requires
            self.wf(),
        ensures
            forall|i: int|
                0 <= i < 4 ==> (#[trigger] b[i]).0 == offsets(self.kind, self.rot as int)[i].0
                    && b[i].1 == offsets(self.kind, self.rot as int)[i].1,
    {
        let s = Self::shape(self.kind);
        s[self.rot as usize]
    }

    /// Moves the piece by `(dx, dy)` if the board allows the new placement.
    /// A refused move leaves the piece exactly as it was.
    pub fn try_move(&mut self, board: &Board, dx: i32, dy: i32) -> (ok: bool)
        requires
            old(self).wf(),
        ensures
            ok == !placement_collides(
                *board,
                old(self).kind,
                old(self).rot as int,
                old(self).x + dx,
                old(self).y + dy,
            ),
            ok ==> final(self).kind == old(self).kind && final(self).rot == old(self).rot
                && final(self).x == old(self).x + dx && final(self).y == old(self).y + dy,
            !ok ==> *final(self) == *old(self),
            *final(self) == shifted(*board, *old(self), dx as int, dy as int),
            final(self).wf(),
    {
        proof {
            lemma_far_placement_collides(*board, self.kind, self.rot as int, self.x + dx, self.y + dy);
        }
        match (self.x.checked_add(dx), self.y.checked_add(dy)) {
            (Some(x), Some(y)) => {
                let p = Piece { kind: self.kind, rot: self.rot, x, y };
                if board.collides(&p) {
                    false
                } else {
                    *self = p;
                    true
                }
            },
            _ => false,
        }
    }

    /// Turns the piece a quarter, clockwise or counter-clockwise. The turned
    /// piece is tried in place, then one column left, one right, two left and
    /// two right; the first legal placement is taken. Where all five collide
    /// the piece stays exactly as it was.
    pub fn try_rotate(&mut self, board: &Board, cw: bool) -> (ok: bool)
        requires
            old(self).wf(),
        ensures
            ok == first_fit(
                *board,
                old(self).kind,
                turned(old(self).rot as int, cw),
                old(self).x as int,
                old(self).y as int,
                0,
            ) is Some,
            ok ==> final(self).kind == old(self).kind && final(self).rot == turned(
                old(self).rot as int,
                cw,
            ) && final(self).y == old(self).y && final(self).x == old(self).x + kicks()[first_fit(
                *board,
                old(self).kind,
                turned(old(self).rot as int, cw),
                old(self).x as int,
                old(self).y as int,
                0,
            ).unwrap()],
            ok ==> final(self).wf() && !board.collides_spec(*final(self)),
            !ok ==> *final(self) == *old(self),
            *final(self) == rotated(*board, *old(self), cw),
    {
        let rot: u8 = (self.rot + if cw { 1u8 } else { 3u8 }) % 4;
        let order: [i32; 5] = [0, -1, 1, -2, 2];
        let ghost fit = |from: int|
            first_fit(*board, self.kind, rot as int, self.x as int, self.y as int, from);
        let mut i: usize = 0;
        while i < 5
            invariant
                0 <= i <= 5,
                rot < 4,
                *self == *old(self),
                rot == turned(old(self).rot as int, cw),
                forall|j: int| 0 <= j < 5 ==> #[trigger] order[j] == kicks()[j],
                fit(0) == fit(i as int),
                fit == |from: int|
                    first_fit(*board, self.kind, rot as int, self.x as int, self.y as int, from),
            decreases 5 - i,
        {
            proof {
                lemma_far_placement_collides(
                    *board,
                    self.kind,
                    rot as int,
                    self.x + kicks()[i as int],
                    self.y as int,
                );
            }
            match self.x.checked_add(order[i]) {
                Some(x) => {
                    let t = Piece { kind: self.kind, rot, x, y: self.y };
                    if !board.collides(&t) {
                        assert(fit(i as int) == Some(i as int));
                        *self = t;
                        return true;
                    }
                },
                None => {},
            }
            assert(fit(i as int) == fit(i + 1));
            i += 1;
        }
        assert(fit(5) is None);
        false
    }
}

/// A placement whose anchor lies outside the range of `i32` collides: its
/// cells are far off the board.
pub proof fn lemma_far_placement_collides(board: Board, kind: Kind, rot: int, x: int, y: int)
    ensures
        !placement_collides(board, kind, rot, x, y) ==> -3 <= x < W && -3 <= y < H,
{
    lemma_offsets_in_box(kind, rot);
    if !placement_collides(board, kind, rot, x, y) {
        assert(!board.blocked(placed_cell(kind, rot, x, y, 0).0, placed_cell(kind, rot, x, y, 0).1));
    }
}

/// The corrections are tried in the order 0, -1, +1, -2, +2 and the first
/// that fits is taken: correction number `k` is the choice exactly where its
/// placement is legal and the placement of every earlier one collides; and
/// there is no choice exactly where all five collide.
pub proof fn lemma_first_fit_is_first(board: Board, kind: Kind, rot: int, x: int, y: int, k: int)
    ensures
        kicks() == seq![0int, -1int, 1int, -2int, 2int],
        first_fit(board, kind, rot, x, y, 0) == Some(k) <==> 0 <= k < 5 && !placement_collides(
            board,
            kind,
            rot,
            x + kicks()[k],
            y,
        ) && forall|j: int|
            0 <= j < k ==> placement_collides(board, kind, rot, x + #[trigger] kicks()[j], y),
        first_fit(board, kind, rot, x, y, 0) is None <==> forall|j: int|
            0 <= j < 5 ==> placement_collides(board, kind, rot, x + #[trigger] kicks()[j], y),
{
    reveal_with_fuel(first_fit, 6);
    let c = |j: int| placement_collides(board, kind, rot, x + kicks()[j], y);
    assert(c(0) == placement_collides(board, kind, rot, x + kicks()[0], y));
    assert(c(1) == placement_collides(board, kind, rot, x + kicks()[1], y));
    assert(c(2) == placement_collides(board, kind, rot, x + kicks()[2], y));
    assert(c(3) == placement_collides(board, kind, rot, x + kicks()[3], y));
    assert(c(4) == placement_collides(board, kind, rot, x + kicks()[4], y));
}

/// Whether all four cells of the piece are on the board.
pub open spec fn lies_on_board(p: Piece) -> bool {
    forall|i: int| 0 <= i < 4 ==> on_board((#[trigger] p.cells()[i]).0, p.cells()[i].1)
}

/// A piece that does not collide has all its cells on the board.
pub proof fn lemma_legal_lies_on_board(board: Board, p: Piece)
    requires
        !board.collides_spec(p),
    ensures
        lies_on_board(p),
{
    assert forall|i: int| 0 <= i < 4 implies on_board((#[trigger] p.cells()[i]).0, p.cells()[i].1) by {
        let c = placed_cell(p.kind, p.rot as int, p.x as int, p.y as int, i);
        assert(p.cells()[i] == c);
        assert(!board.blocked(c.0, c.1));
    }
}

} // verus!
