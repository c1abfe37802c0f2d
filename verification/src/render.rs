//! What to paint: the game's state turned into a list of paint operations
//! for a character-cell screen, two columns to a board cell.

use vstd::prelude::*;
use crate::board::{on_board, Board, H, W};
use crate::game::Game;
use crate::piece::{lemma_offsets_in_box, lies_on_board, offsets, Kind, Piece};

verus! {

/// The colours of the seven kinds, and white for the frame.
#[derive(Copy, Clone, Debug, PartialEq, Eq, Structural)]
pub enum Color {
    Cyan,
    Yellow,
    Magenta,
    Green,
    Red,
    Blue,
    DarkYellow,
    White,
}

/// The fixed texts of the screen.
#[derive(Copy, Clone, Debug, PartialEq, Eq, Structural)]
pub enum Caption {
    /// The top border with the title beside it.
    Top,
    /// One cell of the left or right border.
    Wall,
    /// The bottom left corner.
    BottomLeft,
    /// The bottom right corner.
    BottomRight,
    /// The heading of the preview.
    Next,
    /// The parting words.
    Farewell,
}

/// The three counters beside the board.
#[derive(Copy, Clone, Debug, PartialEq, Eq, Structural)]
pub enum Counter {
    Score,
    Level,
    Lines,
}

/// One paint operation at a screen position (column, row).
#[derive(Copy, Clone, Debug, PartialEq, Eq, Structural)]
pub enum DrawOp {
    /// Two columns in the given background colour.
    Block { col: u16, row: u16, color: Color },
    /// Two blank columns.
    Blank { col: u16, row: u16 },
    /// A fixed text, in the given colour or in the screen's own.
    Text { col: u16, row: u16, text: Caption, tint: Option<Color> },
    /// A counter's name and value.
    Number { col: u16, row: u16, counter: Counter, value: u64 },
}

/// Screen column of the counters and of the preview heading.
pub const HUD_COL: u16 = 24;

/// Screen column of the right border.
pub const RIGHT_COL: u16 = 21;

/// Screen row of the bottom border.
pub const BOTTOM_ROW: u16 = 21;

/// Screen row of the parting words.
pub const FOOTER_ROW: u16 = 23;

/// Board column at which the preview is anchored.
pub const PREVIEW_X: i32 = 16;

/// Board row at which the preview is anchored.
pub const PREVIEW_Y: i32 = 8;

/// The colour of each kind.
pub open spec fn kind_color(kind: Kind) -> Color {
    match kind {
        Kind::I => Color::Cyan,
        Kind::O => Color::Yellow,
        Kind::T => Color::Magenta,
        Kind::S => Color::Green,
        Kind::Z => Color::Red,
        Kind::J => Color::Blue,
        Kind::L => Color::DarkYellow,
    }
}

/// The block that shows board cell `(x, y)`: the frame takes one screen
/// column and one row, and a cell is two columns wide.
pub open spec fn cell_block(x: int, y: int, color: Color) -> DrawOp {
    DrawOp::Block { col: (1 + 2 * x) as u16, row: (1 + y) as u16, color }
}

/// The blank that wipes board cell `(x, y)`.
pub open spec fn cell_blank(x: int, y: int) -> DrawOp {
    DrawOp::Blank { col: (1 + 2 * x) as u16, row: (1 + y) as u16 }
}

/// The blocks for the first `n` cells of a piece, leaving out the cells
/// that are off the board.
pub open spec fn piece_ops_upto(p: Piece, n: int) -> Seq<DrawOp>
    decreases n,
{
    if n <= 0 {
        Seq::empty()
    } else {
        let c = p.cells()[n - 1];
        let before = piece_ops_upto(p, n - 1);
        if on_board(c.0, c.1) {
            before.push(cell_block(c.0, c.1, kind_color(p.kind)))
        } else {
            before
        }
    }
}

/// The blocks that show a piece: one for each cell on the board, in the
/// order of the catalog.
pub open spec fn piece_ops(p: Piece) -> Seq<DrawOp> {
    piece_ops_upto(p, 4)
}

/// The blanks that wipe a piece's four cells, in the order of the catalog.
pub open spec fn erase_ops(p: Piece) -> Seq<DrawOp> {
    Seq::new(4, |i: int| cell_blank(p.cells()[i].0, p.cells()[i].1))
}

/// What shows board cell `(x, y)`: a block in the colour of the kind that
/// fills it, or a blank.
pub open spec fn cell_op(b: Board, x: int, y: int) -> DrawOp {
    match b.cell(x, y) {
        Some(c) => cell_block(x, y, kind_color(c.kind)),
        None => cell_blank(x, y),
    }
}

/// The whole board, row by row from the top, each row from the left.
pub open spec fn board_ops(b: Board) -> Seq<DrawOp> {
    Seq::new((W * H) as nat, |k: int| cell_op(b, k % (W as int), k / (W as int)))
}

/// The three counters, one under the other.
pub open spec fn hud_ops(g: Game) -> Seq<DrawOp> {
    seq![
        DrawOp::Number { col: HUD_COL, row: 2, counter: Counter::Score, value: g.score },
        DrawOp::Number { col: HUD_COL, row: 3, counter: Counter::Level, value: g.level as u64 },
        DrawOp::Number { col: HUD_COL, row: 4, counter: Counter::Lines, value: g.lines as u64 },
    ]
}

/// The two border cells beside each of the first `n` board rows.
pub open spec fn wall_ops(n: int) -> Seq<DrawOp> {
    Seq::new(
        (2 * n) as nat,
        |k: int|
            DrawOp::Text {
                col: if k % 2 == 0 {
                    0
                } else {
                    RIGHT_COL
                },
                row: (k / 2 + 1) as u16,
                text: Caption::Wall,
                tint: None,
            },
    )
}

/// The frame's corners and title, painted in white before the walls.
pub open spec fn frame_ops() -> Seq<DrawOp> {
    seq![
        DrawOp::Text { col: 0, row: 0, text: Caption::Top, tint: Some(Color::White) },
        DrawOp::Text { col: 0, row: 1, text: Caption::Wall, tint: Some(Color::White) },
        DrawOp::Text { col: RIGHT_COL, row: 1, text: Caption::Wall, tint: Some(Color::White) },
        DrawOp::Text { col: 0, row: BOTTOM_ROW, text: Caption::BottomLeft, tint: Some(Color::White) },
        DrawOp::Text { col: RIGHT_COL, row: BOTTOM_ROW, text: Caption::BottomRight, tint: Some(Color::White) },
    ]
}

/// The piece that stands for the upcoming kind in the preview.
pub open spec fn preview_piece(kind: Kind) -> Piece {
    Piece { kind, rot: 0, x: PREVIEW_X, y: PREVIEW_Y }
}

/// Everything around the board: the frame, the walls, the counters, the
/// preview heading and the preview.
pub open spec fn ui_ops(g: Game) -> Seq<DrawOp> {
    frame_ops() + wall_ops(H as int) + hud_ops(g).push(
        DrawOp::Text { col: HUD_COL, row: 6, text: Caption::Next, tint: None },
    ) + piece_ops(preview_piece(g.next))
}

/// The colour in which a kind is shown.
pub fn color_for(kind: Kind) -> (c: Color)
    ensures
        c == kind_color(kind),
{
    match kind {
        Kind::I => Color::Cyan,
        Kind::O => Color::Yellow,
        Kind::T => Color::Magenta,
        Kind::S => Color::Green,
        Kind::Z => Color::Red,
        Kind::J => Color::Blue,
        Kind::L => Color::DarkYellow,
    }
}

/// A block at screen position `(x, y)`.
pub fn draw_block(x: i32, y: i32, color: Color) -> (op: DrawOp)
    requires
        0 <= x <= u16::MAX,
        0 <= y <= u16::MAX,
    ensures
        op == (DrawOp::Block { col: x as u16, row: y as u16, color }),
{
    DrawOp::Block { col: x as u16, row: y as u16, color }
}

/// The blocks that show a piece; cells off the board are left out.
pub fn draw_piece(p: &Piece) -> (ops: Vec<DrawOp>)
    requires
        p.wf(),
    ensures
        ops@ == piece_ops(*p),
{
    let col = color_for(p.kind);
    let blocks = p.blocks();
    let mut ops: Vec<DrawOp> = Vec::new();
    let mut i: usize = 0;
    while i < 4
        invariant
            0 <= i <= 4,
            p.wf(),
            col == kind_color(p.kind),
            forall|j: int|
                0 <= j < 4 ==> (#[trigger] blocks[j]).0 == offsets(p.kind, p.rot as int)[j].0
                    && blocks[j].1 == offsets(p.kind, p.rot as int)[j].1,
            ops@ == piece_ops_upto(*p, i as int),
        decreases 4 - i,
    {
        let (dx, dy) = blocks[i];
        proof {
            lemma_offsets_in_box(p.kind, p.rot as int);
            assert(blocks[i as int].0 == dx);
            assert(p.cells()[i as int] == (p.x + dx, p.y + dy));
        }
        match (p.x.checked_add(dx), p.y.checked_add(dy)) {
            (Some(x), Some(y)) => {
                if Board::inside(x, y) {
                    ops.push(draw_block(1 + x * 2, 1 + y, col));
                }
            },
            _ => {},
        }
        i += 1;
    }
    ops
}

/// The blanks that wipe a piece that lies on the board with all four
/// cells.
pub fn erase_piece(p: &Piece) -> (ops: Vec<DrawOp>)
    requires
        p.wf(),
        lies_on_board(*p),
    ensures
        ops@ == erase_ops(*p),
{
    let blocks = p.blocks();
    let mut ops: Vec<DrawOp> = Vec::new();
    let mut i: usize = 0;
    while i < 4
        invariant
            0 <= i <= 4,
            p.wf(),
            lies_on_board(*p),
            forall|j: int|
                0 <= j < 4 ==> (#[trigger] blocks[j]).0 == offsets(p.kind, p.rot as int)[j].0
                    && blocks[j].1 == offsets(p.kind, p.rot as int)[j].1,
            ops@.len() == i,
            forall|j: int| 0 <= j < i ==> #[trigger] ops@[j] == erase_ops(*p)[j],
        decreases 4 - i,
    {
        let (dx, dy) = blocks[i];
        proof {
            assert(blocks[i as int].0 == dx);
            assert(p.cells()[i as int] == (p.x + dx, p.y + dy));
        }
        let sx: i32 = 1 + (p.x + dx) * 2;
        let sy: i32 = 1 + (p.y + dy);
        ops.push(DrawOp::Blank { col: sx as u16, row: sy as u16 });
        i += 1;
    }
    assert(ops@ =~= erase_ops(*p));
    ops
}

/// The whole board, cell by cell.
pub fn draw_board(b: &Board) -> (ops: Vec<DrawOp>)
    ensures
        ops@ == board_ops(*b),
{
    let mut ops: Vec<DrawOp> = Vec::new();
    let mut y: i32 = 0;
    while y < H as i32
        invariant
            0 <= y <= H,
            ops@.len() == y * W,
            forall|k: int| 0 <= k < ops@.len() ==> #[trigger] ops@[k] == board_ops(*b)[k],
        decreases H - y,
    {
        let mut x: i32 = 0;
        while x < W as i32
            invariant
                0 <= y < H,
                0 <= x <= W,
                ops@.len() == y * W + x,
                forall|k: int| 0 <= k < ops@.len() ==> #[trigger] ops@[k] == board_ops(*b)[k],
            decreases W - x,
        {
            let ghost k = y * W + x;
            assert(k % (W as int) == x && k / (W as int) == y);
            match b.get(x, y) {
                Some(cell) => {
                    ops.push(draw_block(1 + x * 2, 1 + y, color_for(cell.kind)));
                },
                None => {
                    ops.push(DrawOp::Blank { col: (1 + x * 2) as u16, row: (1 + y) as u16 });
                },
            }
            x += 1;
        }
        y += 1;
    }
    assert(ops@ =~= board_ops(*b));
    ops
}

/// The parting words, in white, two rows under the frame.
pub fn draw_footer() -> (op: DrawOp)
    ensures
        op == (DrawOp::Text {
            col: 0,
            row: FOOTER_ROW,
            text: Caption::Farewell,
            tint: Some(Color::White),
        }),
{
    DrawOp::Text { col: 0, row: FOOTER_ROW, text: Caption::Farewell, tint: Some(Color::White) }
}

/// The three counters.
pub fn draw_hud(g: &Game) -> (ops: Vec<DrawOp>)
    ensures
        ops@ == hud_ops(*g),
{
    let mut ops: Vec<DrawOp> = Vec::new();
    ops.push(DrawOp::Number { col: HUD_COL, row: 2, counter: Counter::Score, value: g.score });
    ops.push(
        DrawOp::Number { col: HUD_COL, row: 3, counter: Counter::Level, value: g.level as u64 },
    );
    ops.push(
        DrawOp::Number { col: HUD_COL, row: 4, counter: Counter::Lines, value: g.lines as u64 },
    );
    assert(ops@ =~= hud_ops(*g));
    ops
}

/// Everything around the board. The preview is anchored to the right of
/// the board and painted under the rule that holds for every piece: cells
/// off the board are left out.
pub fn draw_ui(g: &Game) -> (ops: Vec<DrawOp>)
    ensures
        ops@ == ui_ops(*g),
{
    let mut ops: Vec<DrawOp> = Vec::new();
    ops.push(DrawOp::Text { col: 0, row: 0, text: Caption::Top, tint: Some(Color::White) });
    ops.push(DrawOp::Text { col: 0, row: 1, text: Caption::Wall, tint: Some(Color::White) });
    ops.push(DrawOp::Text { col: RIGHT_COL, row: 1, text: Caption::Wall, tint: Some(Color::White) });
    ops.push(DrawOp::Text { col: 0, row: BOTTOM_ROW, text: Caption::BottomLeft, tint: Some(Color::White) });
    ops.push(DrawOp::Text { col: RIGHT_COL, row: BOTTOM_ROW, text: Caption::BottomRight, tint: Some(Color::White) });
    assert(ops@ =~= frame_ops());
    let mut y: u16 = 0;
    while y < H as u16
        invariant
            0 <= y <= H,
            ops@ =~= frame_ops() + wall_ops(y as int),
        decreases H - y,
    {
        ops.push(DrawOp::Text { col: 0, row: y + 1, text: Caption::Wall, tint: None });
        ops.push(DrawOp::Text { col: RIGHT_COL, row: y + 1, text: Caption::Wall, tint: None });
        y += 1;
    }
    let mut hud = draw_hud(g);
    ops.append(&mut hud);
    ops.push(DrawOp::Text { col: HUD_COL, row: 6, text: Caption::Next, tint: None });
    let preview = Piece { kind: g.next, rot: 0, x: PREVIEW_X, y: PREVIEW_Y };
    let mut shown = draw_piece(&preview);
    ops.append(&mut shown);
    assert(ops@ =~= ui_ops(*g));
    ops
}

} // verus!
