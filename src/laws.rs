use vstd::prelude::*;
use crate::buffer::{lemma_row_bounds, BufferView, Selection};
use crate::cell::{Cell, CellStyle};
use crate::cursor::Direction;
use crate::parser::{blocks_from, parse_at, Block};
use crate::pty_reader::TermOut;
use crate::round_trip::canonical;
use crate::sequences::{AnsiSeq, CsiSeq};
use crate::terminal::{buffer_op, fresh, op_allowed, printed, zero_based, BufOp, TerminalView};

verus! {

/// The sequence that leaves the alternate screen.
pub open spec fn leaves_alternate(b: Block<Seq<char>, Seq<u8>>) -> bool {
    b == Block::<Seq<char>, Seq<u8>>::AnsiSequence(AnsiSeq::CSI(CsiSeq::DecPrivateModeReset(1049)))
}

proof fn chars_keep_primary(t: TerminalView, s: Seq<char>)
    requires
        t.alternate is Some,
    ensures
        t.chars_printed(s).alternate is Some,
        t.chars_printed(s).primary == t.primary,
    decreases s.len(),
{
    if s.len() > 0 {
        chars_keep_primary(t.on_active(BufOp::Print(s[0], t.style, t.auto_wrap_mode)), s.drop_first());
    }
}

proof fn block_keeps_primary(t: TerminalView, b: Block<Seq<char>, Seq<u8>>)
    requires
        t.alternate is Some,
        !leaves_alternate(b),
    ensures
        t.block_applied(b).alternate is Some,
        t.block_applied(b).primary == t.primary,
{
    reveal(TerminalView::block_applied);
    reveal(TerminalView::seq_applied);
    match b {
        Block::TextBlock(s) => chars_keep_primary(t, s),
        Block::AnsiSequence(a) => {},
    }
}

proof fn blocks_keep_primary(t: TerminalView, bs: Seq<Block<Seq<char>, Seq<u8>>>)
    requires
        t.alternate is Some,
        forall|k: int| 0 <= k < bs.len() ==> !leaves_alternate(#[trigger] bs[k]),
    ensures
        t.blocks_applied(bs).alternate is Some,
        t.blocks_applied(bs).primary == t.primary,
    decreases bs.len(),
{
    if bs.len() > 0 {
        block_keeps_primary(t, bs[0]);
        let rest = bs.drop_first();
        assert forall|k: int| 0 <= k < rest.len() implies !leaves_alternate(#[trigger] rest[k]) by {
            assert(rest[k] == bs[k + 1]);
        }
        blocks_keep_primary(t.block_applied(bs[0]), rest);
    }
}

/// Entering the alternate screen, doing anything there short of leaving it, then leaving it
/// shows the primary buffer exactly as it was: cells, cursor, saved cursor and scroll region.
pub proof fn alternate_screen_restores(t: TerminalView, bs: Seq<Block<Seq<char>, Seq<u8>>>)
    requires
        forall|k: int| 0 <= k < bs.len() ==> !leaves_alternate(#[trigger] bs[k]),
    ensures
        ({
            let enter = AnsiSeq::CSI(CsiSeq::<Seq<u8>>::DecPrivateModeSet(1049));
            let leave = AnsiSeq::CSI(CsiSeq::<Seq<u8>>::DecPrivateModeReset(1049));
            let after = t.seq_applied(enter).blocks_applied(bs).seq_applied(leave);
            after.alternate is None && after.active() == t.primary
        }),
{
    let enter = AnsiSeq::CSI(CsiSeq::<Seq<u8>>::DecPrivateModeSet(1049));
    let leave = AnsiSeq::CSI(CsiSeq::<Seq<u8>>::DecPrivateModeReset(1049));
    entering_alternate(t);
    blocks_keep_primary(t.seq_applied(enter), bs);
    leaving_alternate(t.seq_applied(enter).blocks_applied(bs));
}

proof fn entering_alternate(t: TerminalView)
    ensures
        t.seq_applied(AnsiSeq::CSI(CsiSeq::<Seq<u8>>::DecPrivateModeSet(1049))).alternate is Some,
        t.seq_applied(AnsiSeq::CSI(CsiSeq::<Seq<u8>>::DecPrivateModeSet(1049))).primary == t.primary,
{
    reveal(TerminalView::seq_applied);
}

proof fn leaving_alternate(t: TerminalView)
    ensures
        t.seq_applied(AnsiSeq::CSI(CsiSeq::<Seq<u8>>::DecPrivateModeReset(1049))).alternate is None,
        t.seq_applied(AnsiSeq::CSI(CsiSeq::<Seq<u8>>::DecPrivateModeReset(1049))).primary == t.primary,
{
    reveal(TerminalView::seq_applied);
}

/// A token that does not leave the alternate screen: no text of it parses to `CSI ? 1049 l`.
pub open spec fn keeps_alternate(t: TermOut<Seq<char>>) -> bool {
    match t {
        TermOut::Text(s) => forall|k: int| 0 <= k < blocks_from(s, 0).len() ==> !leaves_alternate(#[trigger] blocks_from(s, 0)[k]),
        _ => true,
    }
}

proof fn tokens_keep_primary(t: TerminalView, ts: Seq<TermOut<Seq<char>>>)
    requires
        t.alternate is Some,
        forall|k: int| 0 <= k < ts.len() ==> keeps_alternate(#[trigger] ts[k]),
    ensures
        t.tokens_applied(ts).alternate is Some,
        t.tokens_applied(ts).primary == t.primary,
    decreases ts.len(),
{
    if ts.len() > 0 {
        reveal(TerminalView::token_applied);
        assert(keeps_alternate(ts[0]));
        match ts[0] {
            TermOut::Text(s) => blocks_keep_primary(t, blocks_from(s, 0)),
            _ => {},
        }
        let rest = ts.drop_first();
        assert forall|k: int| 0 <= k < rest.len() implies keeps_alternate(#[trigger] rest[k]) by {
            assert(rest[k] == ts[k + 1]);
        }
        tokens_keep_primary(t.token_applied(ts[0]), rest);
    }
}

/// The same over whole token streams, as `Terminal::parse` takes them: entering the alternate
/// screen, then any text, line feeds, carriage returns and backspaces short of leaving it, then
/// leaving it shows the primary buffer exactly as it was.
pub proof fn alternate_screen_restores_stream(t: TerminalView, ts: Seq<TermOut<Seq<char>>>)
    requires
        forall|k: int| 0 <= k < ts.len() ==> keeps_alternate(#[trigger] ts[k]),
    ensures
        ({
            let enter = AnsiSeq::CSI(CsiSeq::<Seq<u8>>::DecPrivateModeSet(1049));
            let leave = AnsiSeq::CSI(CsiSeq::<Seq<u8>>::DecPrivateModeReset(1049));
            let after = t.seq_applied(enter).tokens_applied(ts).seq_applied(leave);
            after.alternate is None && after.active() == t.primary
        }),
{
    let enter = AnsiSeq::CSI(CsiSeq::<Seq<u8>>::DecPrivateModeSet(1049));
    entering_alternate(t);
    tokens_keep_primary(t.seq_applied(enter), ts);
    leaving_alternate(t.seq_applied(enter).tokens_applied(ts));
}

/// A cursor position from the wire is one-based: the parser never yields a zero row or column.
pub proof fn parsed_position_is_one_based(s: Seq<char>, i: int)
    requires
        parse_at(s, i) matches Some((AnsiSeq::CSI(CsiSeq::CursorPos(_, _)), _)),
    ensures
        parse_at(s, i) matches Some((AnsiSeq::CSI(CsiSeq::CursorPos(r, c)), _)) && r >= 1 && c >= 1,
{
    crate::round_trip::parse_render_round_trip(s, i);
    assert(canonical((parse_at(s, i)->0).0)) by {
        reveal_with_fuel(canonical, 1);
    }
}

/// `CursorPos(1, 1)` puts the cursor on the top-left cell.
pub proof fn home_position(t: TerminalView)
    requires
        t.wf(),
    ensures
        t.seq_applied(AnsiSeq::CSI(CsiSeq::CursorPos(1, 1))).active().cursor.row == 0,
        t.seq_applied(AnsiSeq::CSI(CsiSeq::CursorPos(1, 1))).active().cursor.col == 0,
{
    reveal(TerminalView::seq_applied);
}

/// With wrapping on, a character written into the last column leaves the cursor pending there;
/// the next character lands on column 0 of the following row, or of the last row after a scroll.
pub proof fn wrap_on_next_print(b: BufferView<Cell>, c1: char, c2: char, st: CellStyle)
    requires
        b.wf(),
        b.cursor.col == b.cols - 1,
    ensures
        printed(b, c1, st, true).cursor.col == b.cols,
        printed(b, c1, st, true).cursor.row == b.cursor.row,
        printed(b, c1, st, true).at(b.cursor.row as int, b.cols - 1) == (Cell { content: c1, style: st }),
        printed(printed(b, c1, st, true), c2, st, true).cursor.col == 1,
        b.cursor.row < b.rows - 1 ==> printed(printed(b, c1, st, true), c2, st, true).cursor.row == b.cursor.row + 1,
        b.cursor.row == b.rows - 1 ==> printed(printed(b, c1, st, true), c2, st, true).cursor.row == b.cursor.row,
        printed(printed(b, c1, st, true), c2, st, true).at(
            printed(printed(b, c1, st, true), c2, st, true).cursor.row as int,
            0,
        ) == (Cell { content: c2, style: st }),
{
    assert(b.rows <= b.rows * b.cols) by (nonlinear_arith)
        requires
            b.cols >= 1,
    ;
    assert(b.cols <= b.rows * b.cols) by (nonlinear_arith)
        requires
            b.rows >= 1,
    ;
    lemma_row_bounds(b.cursor.row as int, b.cursor.col as int, b.rows as int, b.cols as int);
    let b1 = printed(b, c1, st, true);
    assert(b1.cursor.col == b.cols);
    let b1w = b1.advanced(true);
    lemma_row_bounds(b1w.cursor.row as int, 0, b.rows as int, b.cols as int);
    let b2 = printed(b1, c2, st, true);
    let r2 = b2.cursor.row as int;
    assert(r2 == b1w.cursor.row);
}


proof fn buffer_op_keeps_shape(b: BufferView<Cell>, op: BufOp)
    requires
        b.wf(),
        op_allowed(b, op),
    ensures
        buffer_op(b, op).wf(),
{
    assert(b.rows <= b.rows * b.cols && b.cols <= b.rows * b.cols) by (nonlinear_arith)
        requires
            b.rows >= 1,
            b.cols >= 1,
    ;
    match op {
        BufOp::Resize(r, c) => {
            assert(r <= r * c && c <= r * c) by (nonlinear_arith)
                requires
                    r >= 1,
                    c >= 1,
            ;
        },
        BufOp::Print(ch, st, wrap) => {
            let b1 = if b.cursor.col == b.cols { b.advanced(wrap) } else { b };
            assert(b1.wf());
            lemma_row_bounds(b1.cursor.row as int, b1.cursor.col as int, b1.rows as int, b1.cols as int);
            assert(b1.written(Cell { content: ch, style: st }).wf());
        },
        _ => {},
    }
}

proof fn fresh_keeps_shape(rows: nat, cols: nat)
    requires
        rows >= 1,
        cols >= 1,
        rows * cols <= usize::MAX,
    ensures
        fresh(rows, cols).wf(),
{
}

proof fn on_active_keeps_shape(t: TerminalView, op: BufOp)
    requires
        t.wf(),
        op_allowed(t.active(), op),
    ensures
        t.on_active(op).wf(),
{
    buffer_op_keeps_shape(t.active(), op);
}

proof fn seq_keeps_shape(t: TerminalView, a: AnsiSeq<Seq<u8>>)
    requires
        t.wf(),
    ensures
        t.seq_applied(a).wf(),
{
    reveal(TerminalView::seq_applied);
    match a {
        AnsiSeq::CSI(c) => csi_keeps_shape(t, c),
        AnsiSeq::OSC(_) => {},
        AnsiSeq::ESC(_) => on_active_keeps_shape(t, BufOp::ReverseIndex),
    }
}

#[verifier::rlimit(50)]
proof fn csi_keeps_shape(t: TerminalView, c: CsiSeq<Seq<u8>>)
    requires
        t.wf(),
    ensures
        t.csi_applied(c).wf(),
{
    let b = t.active();
    fresh_keeps_shape(b.rows, b.cols);
    let cur = b.cursor;
    match c {
        CsiSeq::CursorPos(r, k) => on_active_keeps_shape(t, BufOp::Position(zero_based(r) as usize, zero_based(k) as usize)),
        CsiSeq::CursorUp(n) => on_active_keeps_shape(t, BufOp::Move(Direction::Up(n as usize))),
        CsiSeq::CursorDown(n) => on_active_keeps_shape(t, BufOp::Move(Direction::Down(n as usize))),
        CsiSeq::CursorForward(n) => on_active_keeps_shape(t, BufOp::Move(Direction::Right(n as usize))),
        CsiSeq::CursorBackward(n) => on_active_keeps_shape(t, BufOp::Move(Direction::Left(n as usize))),
        CsiSeq::LinePositionAbsolute(n) => on_active_keeps_shape(t, BufOp::Position(zero_based(n) as usize, cur.col)),
        CsiSeq::CursorCharacterAbsolute(n) => on_active_keeps_shape(t, BufOp::Position(cur.row, zero_based(n) as usize)),
        CsiSeq::CursorStyle(n) => on_active_keeps_shape(t, BufOp::Style(n)),
        CsiSeq::CursorSave => on_active_keeps_shape(t, BufOp::Save),
        CsiSeq::CursorRestore => on_active_keeps_shape(t, BufOp::Restore),
        CsiSeq::EraseDisplay(n) => {
            on_active_keeps_shape(t, BufOp::Clear(Selection::ToEndOfDisplay));
            on_active_keeps_shape(t, BufOp::Clear(Selection::FromStartOfDisplay));
            on_active_keeps_shape(t, BufOp::Clear(Selection::Display));
        },
        CsiSeq::EraseCharacters(n) => on_active_keeps_shape(t, BufOp::Clear(Selection::Characters(n))),
        CsiSeq::EraseInLine(n) => {
            on_active_keeps_shape(t, BufOp::Clear(Selection::ToEndOfLine));
            on_active_keeps_shape(t, BufOp::Clear(Selection::FromStartOfLine));
            on_active_keeps_shape(t, BufOp::Clear(Selection::Line));
        },
        CsiSeq::SetTopAndBottom(tp, bt) => on_active_keeps_shape(t, BufOp::Region(zero_based(tp) as usize, zero_based(bt) as usize)),
        _ => {},
    }
}

proof fn chars_keep_shape(t: TerminalView, s: Seq<char>)
    requires
        t.wf(),
    ensures
        t.chars_printed(s).wf(),
    decreases s.len(),
{
    if s.len() > 0 {
        let op = BufOp::Print(s[0], t.style, t.auto_wrap_mode);
        on_active_keeps_shape(t, op);
        chars_keep_shape(t.on_active(op), s.drop_first());
    }
}

proof fn blocks_keep_shape(t: TerminalView, bs: Seq<Block<Seq<char>, Seq<u8>>>)
    requires
        t.wf(),
    ensures
        t.blocks_applied(bs).wf(),
    decreases bs.len(),
{
    if bs.len() > 0 {
        reveal(TerminalView::block_applied);
        match bs[0] {
            Block::TextBlock(s) => chars_keep_shape(t, s),
            Block::AnsiSequence(a) => seq_keeps_shape(t, a),
        }
        blocks_keep_shape(t.block_applied(bs[0]), bs.drop_first());
    }
}

/// Whatever stream of framed tokens arrives, the active grid keeps `rows * cols` cells, the
/// cursor stays on a row of the grid and at most one column past its last cell, and the scroll
/// region stays inside the grid.
pub proof fn stream_keeps_shape(t: TerminalView, ts: Seq<TermOut<Seq<char>>>)
    requires
        t.wf(),
    ensures
        t.tokens_applied(ts).wf(),
        t.tokens_applied(ts).active().data.len() == t.tokens_applied(ts).active().rows * t.tokens_applied(ts).active().cols,
        t.tokens_applied(ts).active().cursor.row < t.tokens_applied(ts).active().rows,
        t.tokens_applied(ts).active().cursor.col <= t.tokens_applied(ts).active().cols,
    decreases ts.len(),
{
    if ts.len() > 0 {
        reveal(TerminalView::token_applied);
        match ts[0] {
            TermOut::Text(s) => blocks_keep_shape(t, blocks_from(s, 0)),
            TermOut::NewLine => on_active_keeps_shape(t, BufOp::Newline(t.newline_mode)),
            TermOut::CarriageReturn => on_active_keeps_shape(t, BufOp::Return),
            TermOut::Backspace => on_active_keeps_shape(t, BufOp::Backspace),
        }
        stream_keeps_shape(t.token_applied(ts[0]), ts.drop_first());
    }
}

} // verus!
