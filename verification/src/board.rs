//! The playing field: a fixed grid of optionally occupied cells.

use vstd::prelude::*;
use crate::piece::{lemma_offsets_in_box, offsets, placed_cell, placement_collides, Kind, Piece};

verus! {

/// Number of columns of the board.
pub const W: usize = 10;

/// Number of rows of the board.
pub const H: usize = 20;

/// An occupied cell; it remembers the kind of the piece that filled it.
#[derive(Copy, Clone, Debug, PartialEq, Eq, Structural)]
pub struct Cell {
    pub kind: Kind,
}

/// The grid, row by row from the top.
#[derive(Clone, Copy, Debug, PartialEq, Eq)]
pub struct Board {
    pub grid: [[Option<Cell>; W]; H],
}

/// One row of the board, as a sequence of `W` cells from the left.
pub type Row = Seq<Option<Cell>>;

/// The mathematical board: `H` rows from the top.
pub type Grid = Seq<Row>;

impl View for Board {
    type V = Grid;

    open spec fn view(&self) -> Grid {
        Seq::new(H as nat, |y: int| self.grid[y]@)
    }
}

/// A row is full where every one of its cells is occupied.
pub open spec fn row_full(row: Row) -> bool {
    forall|x: int| 0 <= x < row.len() ==> (#[trigger] row[x]) is Some
}

/// A row of `W` empty cells.
pub open spec fn empty_row() -> Row {
    Seq::new(W as nat, |x: int| None)
}

/// The rows that survive a clear: those that are not full, in their order.
pub open spec fn kept_rows(g: Grid) -> Grid {
    g.filter(|r: Row| !row_full(r))
}

/// The grid after its full rows are removed: the surviving rows, in their
/// order, at the bottom, under as many empty rows as were removed.
pub open spec fn compacted(g: Grid) -> Grid {
    Seq::new((g.len() - kept_rows(g).len()) as nat, |y: int| empty_row()) + kept_rows(g)
}

/// The grid after a piece is written into it: the cells that the piece
/// covers hold its kind, all others are as before.
pub open spec fn grid_with_piece(g: Grid, p: Piece) -> Grid {
    Seq::new(
        H as nat,
        |y: int|
            Seq::new(
                W as nat,
                |x: int|
                    if p.covers(x, y) {
                        Some(Cell { kind: p.kind })
                    } else {
                        g[y][x]
                    },
            ),
    )
}

/// A clear leaves the grid its height, puts only empty rows on top and
/// leaves no full row behind.
pub proof fn lemma_compacted_shape(g: Grid)
    ensures
        compacted(g).len() == g.len(),
        kept_rows(g).len() <= g.len(),
        forall|y: int|
            0 <= y < g.len() - kept_rows(g).len() ==> #[trigger] compacted(g)[y] == empty_row(),
        forall|y: int| 0 <= y < g.len() ==> !row_full(#[trigger] compacted(g)[y]),
{
    let pred = |r: Row| !row_full(r);
    g.lemma_filter_len(pred);
    let top = g.len() - kept_rows(g).len();
    assert forall|y: int| 0 <= y < g.len() implies !row_full(#[trigger] compacted(g)[y]) by {
        if y < top {
            assert(compacted(g)[y] == empty_row());
            assert(empty_row()[0] is None);
        } else {
            g.lemma_filter_pred(pred, y - top);
            assert(compacted(g)[y] == kept_rows(g)[y - top]);
        }
    }
}

/// Two boards with the same rows are the same board.
pub proof fn lemma_board_by_view(a: Board, b: Board)
    requires
        a@ == b@,
    ensures
        a == b,
{
    assert forall|y: int| 0 <= y < H implies a.grid[y] == b.grid[y] by {
        assert(a@[y] == b@[y]);
        assert(a.grid[y] =~= b.grid[y]);
    }
    assert(a.grid =~= b.grid);
}

/// Keeping rows distributes over putting one row in front.
pub proof fn lemma_kept_rows_step(g: Grid, y: int)
    requires
        0 <= y < g.len(),
    ensures
        kept_rows(g.subrange(y, g.len() as int)) == if row_full(g[y]) {
            kept_rows(g.subrange(y + 1, g.len() as int))
        } else {
            seq![g[y]] + kept_rows(g.subrange(y + 1, g.len() as int))
        },
        kept_rows(g.subrange(y, g.len() as int)).len() <= g.len() - y,
{
    let pred = |r: Row| !row_full(r);
    let head = seq![g[y]];
    let tail = g.subrange(y + 1, g.len() as int);
    assert(g.subrange(y, g.len() as int) =~= head + tail);
    Seq::filter_distributes_over_add(head, tail, pred);
    reveal_with_fuel(Seq::filter, 2);
    assert(head.drop_last() =~= Seq::<Row>::empty());
    assert(head.last() == g[y]);
    assert(head.filter(pred) =~= if pred(g[y]) {
        head
    } else {
        Seq::<Row>::empty()
    });
    g.subrange(y, g.len() as int).lemma_filter_len(pred);
}

/// Whether the mathematical coordinate `(x, y)` lies on the board.
pub open spec fn on_board(x: int, y: int) -> bool {
    0 <= x < W && 0 <= y < H
}

impl Board {
    /// The content of `(x, y)`; everything off the board reads as empty.
    pub open spec fn cell(&self, x: int, y: int) -> Option<Cell> {
        if on_board(x, y) {
            self.grid[y][x]
        } else {
            None
        }
    }

    /// Whether `(x, y)` cannot take a cell of a piece: it is off the board or
    /// already occupied.
    pub open spec fn blocked(&self, x: int, y: int) -> bool {
        !on_board(x, y) || self.cell(x, y) is Some
    }

    /// An empty board.
    pub fn new() -> (b: Board)
        ensures
            forall|x: int, y: int| b.cell(x, y) is None,
    {
        let row: [Option<Cell>; W] = [None; W];
        Board { grid: [row; H] }
    }

    /// Whether `(x, y)` lies on the board.
    pub fn inside(x: i32, y: i32) -> (r: bool)
        ensures
            r == on_board(x as int, y as int),
    {
        x >= 0 && x < W as i32 && y >= 0 && y < H as i32
    }

    /// Reads a cell; off the board the answer is `None`.
    pub fn get(&self, x: i32, y: i32) -> (c: Option<Cell>)
        ensures
            c == self.cell(x as int, y as int),
    {
        if Self::inside(x, y) {
            self.grid[y as usize][x as usize]
        } else {
            None
        }
    }

    /// Overwrites a cell; off the board nothing happens.
    pub fn set(&mut self, x: i32, y: i32, c: Option<Cell>)
        ensures
            forall|i: int, j: int|
                final(self).cell(i, j) == if i == x && j == y && on_board(i, j) {
                    c
                } else {
                    old(self).cell(i, j)
                },
    {
        if Self::inside(x, y) {
            self.grid[y as usize][x as usize] = c;
        }
    }

    /// Whether the piece's placement is illegal: one of its four cells is off
    /// the board or already occupied.
    pub open spec fn collides_spec(&self, p: Piece) -> bool {
        placement_collides(*self, p.kind, p.rot as int, p.x as int, p.y as int)
    }

    /// The legality oracle: true exactly where one of the piece's four cells
    /// is off the board or already occupied.
    pub fn collides(&self, p: &Piece) -> (r: bool)
        requires
            p.wf(),
        ensures
            r == self.collides_spec(*p),
            r == exists|i: int|
                0 <= i < 4 && self.blocked((#[trigger] p.cells()[i]).0, p.cells()[i].1),
    {
        let blocks = p.blocks();
        proof {
            lemma_offsets_in_box(p.kind, p.rot as int);
        }
        let mut i: usize = 0;
        while i < 4
            invariant
                0 <= i <= 4,
                p.wf(),
                forall|j: int|
                    0 <= j < 4 ==> (#[trigger] blocks[j]).0 == offsets(p.kind, p.rot as int)[j].0
                        && blocks[j].1 == offsets(p.kind, p.rot as int)[j].1,
                forall|j: int|
                    0 <= j < i ==> !self.blocked(
                        (#[trigger] placed_cell(p.kind, p.rot as int, p.x as int, p.y as int, j)).0,
                        placed_cell(p.kind, p.rot as int, p.x as int, p.y as int, j).1,
                    ),
            decreases 4 - i,
        {
            let (dx, dy) = blocks[i];
            proof {
                lemma_offsets_in_box(p.kind, p.rot as int);
                assert(blocks[i as int].0 == dx);
            }
            let ghost c = placed_cell(p.kind, p.rot as int, p.x as int, p.y as int, i as int);
            let free = match (p.x.checked_add(dx), p.y.checked_add(dy)) {
                (Some(x), Some(y)) => Self::inside(x, y) && self.get(x, y).is_none(),
                _ => false,
            };
            if !free {
                assert(self.blocked(c.0, c.1));
                assert(p.cells()[i as int] == c);
                return true;
            }
            i += 1;
        }
        assert forall|j: int| 0 <= j < 4 implies !self.blocked(
            (#[trigger] p.cells()[j]).0,
            p.cells()[j].1,
        ) by {
            assert(p.cells()[j] == placed_cell(p.kind, p.rot as int, p.x as int, p.y as int, j));
        }
        false
    }

    /// Writes the piece's four cells into the grid, each holding the piece's
    /// kind. Cells off the board are skipped.
    pub fn lock_piece(&mut self, p: &Piece)
        requires
            p.wf(),
        ensures
            final(self)@ == grid_with_piece(old(self)@, *p),
            forall|x: int, y: int|
                final(self).cell(x, y) == if p.covers(x, y) && on_board(x, y) {
                    Some(Cell { kind: p.kind })
                } else {
                    old(self).cell(x, y)
                },
    {
        let blocks = p.blocks();
        let mut i: usize = 0;
        while i < 4
            invariant
                0 <= i <= 4,
                p.wf(),
                forall|j: int|
                    0 <= j < 4 ==> (#[trigger] blocks[j]).0 == offsets(p.kind, p.rot as int)[j].0
                        && blocks[j].1 == offsets(p.kind, p.rot as int)[j].1,
                forall|x: int, y: int|
                    self.cell(x, y) == if on_board(x, y) && exists|j: int|
                        0 <= j < i && #[trigger] p.cells()[j] == (x, y) {
                        Some(Cell { kind: p.kind })
                    } else {
                        old(self).cell(x, y)
                    },
            decreases 4 - i,
        {
            let (dx, dy) = blocks[i];
            let ghost before = *self;
            let ghost c = p.cells()[i as int];
            proof {
                lemma_offsets_in_box(p.kind, p.rot as int);
                assert(blocks[i as int].0 == dx);
                assert(c == (p.x + dx, p.y + dy));
            }
            match (p.x.checked_add(dx), p.y.checked_add(dy)) {
                (Some(x), Some(y)) => {
                    self.set(x, y, Some(Cell { kind: p.kind }));
                },
                _ => {
                    assert(!on_board(c.0, c.1));
                },
            }
            assert forall|x: int, y: int|
                self.cell(x, y) == if on_board(x, y) && exists|j: int|
                    0 <= j < i + 1 && #[trigger] p.cells()[j] == (x, y) {
                    Some(Cell { kind: p.kind })
                } else {
                    old(self).cell(x, y)
                } by {
                if on_board(x, y) {
                    if c == (x, y) {
                        assert(p.cells()[i as int] == (x, y));
                    } else if exists|j: int| 0 <= j < i && #[trigger] p.cells()[j] == (x, y) {
                        let j = choose|j: int| 0 <= j < i && #[trigger] p.cells()[j] == (x, y);
                        assert(p.cells()[j] == (x, y));
                    } else {
                        assert(self.cell(x, y) == before.cell(x, y));
                    }
                }
            }
            i += 1;
        }
        proof {
            let want = grid_with_piece(old(self)@, *p);
            assert forall|y: int| 0 <= y < H implies #[trigger] self@[y] =~= want[y] by {
                assert forall|x: int| 0 <= x < W implies self@[y][x] == want[y][x] by {
                    assert(self@[y][x] == self.cell(x, y));
                    assert(old(self)@[y][x] == old(self).cell(x, y));
                }
            }
            assert(self@ =~= want);
        }
    }

    /// Whether every cell of row `y` is occupied.
    pub fn row_is_full(&self, y: usize) -> (full: bool)
        requires
            y < H,
        ensures
            full == row_full(self@[y as int]),
    {
        let mut x: usize = 0;
        while x < W
            invariant
                0 <= x <= W,
                y < H,
                forall|k: int| 0 <= k < x ==> (#[trigger] self@[y as int][k]) is Some,
            decreases W - x,
        {
            if self.grid[y][x].is_none() {
                assert(self@[y as int][x as int] is None);
                return false;
            }
            x += 1;
        }
        true
    }

    /// Removes every full row. The rows that remain keep their order and
    /// sink to the bottom; as many empty rows as were removed appear at the
    /// top. Returns the number of rows removed.
    pub fn clear_lines(&mut self) -> (cleared: usize)
        ensures
            final(self)@ == compacted(old(self)@),
            cleared == H - kept_rows(old(self)@).len(),
            cleared <= H,
    {
        let ghost g = self@;
        let mut write: usize = H;
        let mut y: usize = H;
        let mut cleared: usize = 0;
        assert(g.subrange(H as int, H as int) =~= Seq::<Row>::empty());
        assert(self@.subrange(H as int, H as int) =~= Seq::<Row>::empty());
        while y > 0
            invariant
                g == old(self)@,
                g.len() == H,
                0 <= y <= write <= H,
                cleared == write - y,
                self@.subrange(0, y as int) == g.subrange(0, y as int),
                self@.subrange(write as int, H as int) == kept_rows(g.subrange(y as int, H as int)),
            decreases y,
        {
            y -= 1;
            let ghost before = self@;
            proof {
                lemma_kept_rows_step(g, y as int);
                assert(before[y as int] == before.subrange(0, y + 1)[y as int]);
                assert(before[y as int] == g[y as int]);
            }
            if !self.row_is_full(y) {
                write -= 1;
                if write != y {
                    let row = self.grid[y];
                    self.grid[write] = row;
                }
                proof {
                    assert(self@[write as int] == g[y as int]);
                    assert forall|k: int| 0 <= k < H && k != write implies self@[k] == before[k] by {}
                    assert(self@.subrange(write as int, H as int) =~= seq![g[y as int]]
                        + before.subrange(write + 1, H as int));
                    assert forall|k: int| 0 <= k < y implies self@.subrange(0, y as int)[k]
                        == g.subrange(0, y as int)[k] by {
                        assert(before.subrange(0, y + 1)[k] == g.subrange(0, y + 1)[k]);
                    }
                    assert(self@.subrange(0, y as int) =~= g.subrange(0, y as int));
                }
            } else {
                cleared += 1;
                proof {
                    assert forall|k: int| 0 <= k < y implies self@.subrange(0, y as int)[k]
                        == g.subrange(0, y as int)[k] by {
                        assert(before.subrange(0, y + 1)[k] == g.subrange(0, y + 1)[k]);
                    }
                    assert(self@.subrange(0, y as int) =~= g.subrange(0, y as int));
                }
            }
        }
        assert(g.subrange(0, H as int) =~= g);
        let ghost kept = self@.subrange(write as int, H as int);
        let mut t: usize = 0;
        while t < write
            invariant
                0 <= t <= write <= H,
                self@.subrange(write as int, H as int) == kept,
                forall|k: int| 0 <= k < t ==> #[trigger] self@[k] == empty_row(),
            decreases write - t,
        {
            let ghost before = self@;
            self.grid[t] = [None; W];
            proof {
                assert(self@[t as int] =~= empty_row());
                assert forall|k: int| 0 <= k < H && k != t implies #[trigger] self@[k]
                    == before[k] by {}
                assert(self@.subrange(write as int, H as int) =~= before.subrange(
                    write as int,
                    H as int,
                ));
            }
            t += 1;
        }
        proof {
            assert(kept.len() == H - write);
            assert forall|k: int| 0 <= k < H implies self@[k] == compacted(g)[k] by {
                if k >= write {
                    assert(self@[k] == self@.subrange(write as int, H as int)[k - write]);
                }
            }
            assert(self@ =~= compacted(g));
        }
        cleared
    }
}

} // verus!
