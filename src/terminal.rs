use vstd::prelude::*;
use crate::buffer::{Buffer, BufferView, Selection};
use crate::cell::{blank_cell, default_style, modified, Cell, CellStyle};
use crate::cursor::{style_for_code, Cursor, CursorStyle, Direction};
use crate::parser::{ansi_parse, blocks_from, chars_of, Block, Output};
use crate::pty_reader::{TermOut, TerminalOutput};
use crate::sequences::{AnsiSeq, AnsiSequence, CSISequence, CsiSeq, ESCSequence};
use crate::sgr_list::sgr_slice;

verus! {

/// The grid size in cells.
#[derive(Debug, Clone, Copy, PartialEq, Eq, Structural)]
pub struct TerminalSize {
    pub cols: usize,
    pub rows: usize,
}

impl TerminalSize {
    pub fn new(cols: usize, rows: usize) -> (r: Self)
        ensures
            r.cols == cols,
            r.rows == rows,
    {
        TerminalSize { cols, rows }
    }
}

/// A message for the PTY side: bytes to write, or the new window size as `(cols, rows)`.
#[derive(Debug, Clone, PartialEq)]
pub enum TermMessage {
    Bytes(Vec<u8>),
    WindowResized(usize, usize),
}

/// A change of window focus.
#[derive(Debug, Clone, Copy, PartialEq, Eq, Structural)]
pub enum WindowFocus {
    Focus,
    Unfocus,
}

/// `ESC [ I` on gaining focus, `ESC [ O` on losing it.
pub open spec fn focus_report(f: WindowFocus) -> Seq<u8> {
    match f {
        WindowFocus::Focus => seq![0x1bu8, 0x5bu8, 0x49u8],
        WindowFocus::Unfocus => seq![0x1bu8, 0x5bu8, 0x4fu8],
    }
}

/// A key without text of its own.
#[derive(Debug, Clone, Copy, PartialEq, Eq, Structural)]
pub enum NamedKey {
    ArrowUp,
    ArrowDown,
    ArrowRight,
    ArrowLeft,
    Enter,
    Space,
    Backspace,
    Other,
}

/// The bytes a named key sends to the PTY.
pub open spec fn key_sequence(k: NamedKey) -> Option<Seq<u8>> {
    match k {
        NamedKey::ArrowUp => Some(seq![0x1bu8, 0x5bu8, 0x41u8]),
        NamedKey::ArrowDown => Some(seq![0x1bu8, 0x5bu8, 0x42u8]),
        NamedKey::ArrowRight => Some(seq![0x1bu8, 0x5bu8, 0x43u8]),
        NamedKey::ArrowLeft => Some(seq![0x1bu8, 0x5bu8, 0x44u8]),
        NamedKey::Enter => Some(seq![0x0du8]),
        NamedKey::Space => Some(seq![0x20u8]),
        NamedKey::Backspace => Some(seq![0x7fu8]),
        NamedKey::Other => None,
    }
}

pub fn key_bytes(k: NamedKey) -> (r: Option<Vec<u8>>)
    ensures
        r is Some <==> key_sequence(k) is Some,
        r matches Some(v) ==> v@ == key_sequence(k)->0,
{
    let r: Option<Vec<u8>> = match k {
        NamedKey::ArrowUp => Some(vec![0x1b, 0x5b, 0x41]),
        NamedKey::ArrowDown => Some(vec![0x1b, 0x5b, 0x42]),
        NamedKey::ArrowRight => Some(vec![0x1b, 0x5b, 0x43]),
        NamedKey::ArrowLeft => Some(vec![0x1b, 0x5b, 0x44]),
        NamedKey::Enter => Some(vec![0x0d]),
        NamedKey::Space => Some(vec![0x20]),
        NamedKey::Backspace => Some(vec![0x7f]),
        NamedKey::Other => None,
    };
    assert(r matches Some(v) ==> v@ =~= key_sequence(k)->0);
    r
}

/// One primitive applied to the active buffer.
pub enum BufOp {
    Newline(bool),
    Return,
    Backspace,
    ReverseIndex,
    Clear(Selection),
    Save,
    Restore,
    Region(usize, usize),
    Move(Direction),
    Position(usize, usize),
    Style(u8),
    Resize(usize, usize),
    Print(char, CellStyle, bool),
}

pub open spec fn buffer_op(b: BufferView<Cell>, op: BufOp) -> BufferView<Cell> {
    match op {
        BufOp::Newline(m) => b.newlined(m),
        BufOp::Return => b.returned(),
        BufOp::Backspace => b.backspaced(),
        BufOp::ReverseIndex => b.unshifted(),
        BufOp::Clear(s) => b.cleared(s),
        BufOp::Save => b.saved(),
        BufOp::Restore => b.restored(),
        BufOp::Region(t, bt) => b.with_region(t as nat, bt as nat),
        BufOp::Move(d) => b.moved(d),
        BufOp::Position(r, c) => b.positioned(r as nat, c as nat),
        BufOp::Style(code) => b.with_cursor(Cursor { style: style_for_code(code), ..b.cursor }),
        BufOp::Resize(r, c) => b.resized(r as nat, c as nat),
        BufOp::Print(ch, st, wrap) => printed(b, ch, st, wrap),
    }
}

/// Printing one character: a pending wrap is taken first, then the cell is written and the
/// cursor advanced.
pub open spec fn printed(b: BufferView<Cell>, ch: char, st: CellStyle, wrap: bool) -> BufferView<Cell> {
    let b1 = if b.cursor.col == b.cols {
        b.advanced(wrap)
    } else {
        b
    };
    b1.written(Cell { content: ch, style: st }).advanced(wrap)
}

pub open spec fn op_allowed(b: BufferView<Cell>, op: BufOp) -> bool {
    match op {
        BufOp::Resize(r, c) => r >= 1 && c >= 1 && r * c <= usize::MAX,
        _ => true,
    }
}

/// A fresh `rows x cols` buffer of blank cells.
pub open spec fn fresh(rows: nat, cols: nat) -> BufferView<Cell> {
    BufferView {
        rows,
        cols,
        data: Seq::new(rows * cols, |i: int| blank_cell()),
        top: 0,
        bottom: (rows - 1) as nat,
        cursor: Cursor { row: 0, col: 0, style: CursorStyle::SteadyBlock },
        saved_cursor: None,
    }
}

/// The observable state of a terminal.
pub struct TerminalView {
    pub application_mode: bool,
    pub newline_mode: bool,
    pub focus_mode: bool,
    pub auto_wrap_mode: bool,
    pub cursor_visible: bool,
    pub bracketed_paste_mode: bool,
    pub size: TerminalSize,
    pub primary: BufferView<Cell>,
    pub alternate: Option<BufferView<Cell>>,
    pub style: CellStyle,
}

/// `n - 1`, floored at zero: a one-based wire position made zero-based.
pub open spec fn zero_based(n: u32) -> nat {
    if n == 0 {
        0
    } else {
        (n - 1) as nat
    }
}

impl TerminalView {
    pub open spec fn wf(self) -> bool {
        &&& self.primary.wf()
        &&& (self.alternate matches Some(a) ==> a.wf())
    }

    /// The buffer that reads and writes go to.
    pub open spec fn active(self) -> BufferView<Cell> {
        match self.alternate {
            Some(a) => a,
            None => self.primary,
        }
    }

    pub open spec fn with_active(self, b: BufferView<Cell>) -> Self {
        match self.alternate {
            Some(_) => TerminalView { alternate: Some(b), ..self },
            None => TerminalView { primary: b, ..self },
        }
    }

    pub open spec fn on_active(self, op: BufOp) -> Self {
        self.with_active(buffer_op(self.active(), op))
    }

    pub open spec fn private_mode(self, n: u32, on: bool) -> Self {
        if n == 1 {
            TerminalView { application_mode: on, ..self }
        } else if n == 7 {
            TerminalView { auto_wrap_mode: on, ..self }
        } else if n == 25 {
            TerminalView { cursor_visible: on, ..self }
        } else if n == 1004 {
            TerminalView { focus_mode: on, ..self }
        } else if n == 2004 {
            TerminalView { bracketed_paste_mode: on, ..self }
        } else if n == 1049 {
            if on {
                TerminalView { alternate: Some(fresh(self.active().rows, self.active().cols)), ..self }
            } else {
                TerminalView { alternate: None, ..self }
            }
        } else {
            self
        }
    }

    /// The effect of one control sequence.
    pub open spec fn csi_applied(self, c: CsiSeq<Seq<u8>>) -> Self {
        let cur = self.active().cursor;
        match c {
            CsiSeq::CursorPos(r, k) => self.on_active(BufOp::Position(zero_based(r) as usize, zero_based(k) as usize)),
            CsiSeq::CursorUp(n) => self.on_active(BufOp::Move(Direction::Up(n as usize))),
            CsiSeq::CursorDown(n) => self.on_active(BufOp::Move(Direction::Down(n as usize))),
            CsiSeq::CursorForward(n) => self.on_active(BufOp::Move(Direction::Right(n as usize))),
            CsiSeq::CursorBackward(n) => self.on_active(BufOp::Move(Direction::Left(n as usize))),
            CsiSeq::LinePositionAbsolute(n) => self.on_active(BufOp::Position(zero_based(n) as usize, cur.col)),
            CsiSeq::CursorCharacterAbsolute(n) => self.on_active(BufOp::Position(cur.row, zero_based(n) as usize)),
            CsiSeq::CursorStyle(n) => self.on_active(BufOp::Style(n)),
            CsiSeq::CursorSave => self.on_active(BufOp::Save),
            CsiSeq::CursorRestore => self.on_active(BufOp::Restore),
            CsiSeq::DecPrivateModeSet(n) => self.private_mode(n, true),
            CsiSeq::DecPrivateModeReset(n) => self.private_mode(n, false),
            CsiSeq::EraseDisplay(n) => if n == 0 {
                self.on_active(BufOp::Clear(Selection::ToEndOfDisplay))
            } else if n == 1 {
                self.on_active(BufOp::Clear(Selection::FromStartOfDisplay))
            } else if n == 2 {
                self.on_active(BufOp::Clear(Selection::Display))
            } else {
                self
            },
            CsiSeq::EraseCharacters(n) => self.on_active(BufOp::Clear(Selection::Characters(n))),
            CsiSeq::EraseInLine(n) => if n == 0 {
                self.on_active(BufOp::Clear(Selection::ToEndOfLine))
            } else if n == 1 {
                self.on_active(BufOp::Clear(Selection::FromStartOfLine))
            } else if n == 2 {
                self.on_active(BufOp::Clear(Selection::Line))
            } else {
                self
            },
            CsiSeq::SetGraphicsMode(v) => TerminalView { style: modified(self.style, v), ..self },
            CsiSeq::SetMode(_) => self,
            CsiSeq::ResetMode(_) => self,
            CsiSeq::SetNewLineMode => TerminalView { newline_mode: true, ..self },
            CsiSeq::SetLineFeedMode => TerminalView { newline_mode: false, ..self },
            CsiSeq::SetTopAndBottom(t, b) => self.on_active(BufOp::Region(zero_based(t) as usize, zero_based(b) as usize)),
        }
    }

    #[verifier::opaque]
    pub open spec fn seq_applied(self, a: AnsiSeq<Seq<u8>>) -> Self {
        match a {
            AnsiSeq::CSI(c) => self.csi_applied(c),
            AnsiSeq::OSC(_) => self,
            AnsiSeq::ESC(e) => if e == ESCSequence::ReverseIndex {
                self.on_active(BufOp::ReverseIndex)
            } else {
                self
            },
        }
    }

    pub open spec fn chars_printed(self, t: Seq<char>) -> Self
        decreases t.len(),
    {
        if t.len() == 0 {
            self
        } else {
            self.on_active(BufOp::Print(t[0], self.style, self.auto_wrap_mode)).chars_printed(t.drop_first())
        }
    }

    #[verifier::opaque]
    pub open spec fn block_applied(self, b: Block<Seq<char>, Seq<u8>>) -> Self {
        match b {
            Block::TextBlock(t) => self.chars_printed(t),
            Block::AnsiSequence(a) => self.seq_applied(a),
        }
    }

    pub open spec fn blocks_applied(self, bs: Seq<Block<Seq<char>, Seq<u8>>>) -> Self
        decreases bs.len(),
    {
        if bs.len() == 0 {
            self
        } else {
            self.block_applied(bs[0]).blocks_applied(bs.drop_first())
        }
    }

    #[verifier::opaque]
    pub open spec fn token_applied(self, t: TermOut<Seq<char>>) -> Self {
        match t {
            TermOut::Text(s) => self.blocks_applied(blocks_from(s, 0)),
            TermOut::NewLine => self.on_active(BufOp::Newline(self.newline_mode)),
            TermOut::CarriageReturn => self.on_active(BufOp::Return),
            TermOut::Backspace => self.on_active(BufOp::Backspace),
        }
    }

    pub open spec fn tokens_applied(self, ts: Seq<TermOut<Seq<char>>>) -> Self
        decreases ts.len(),
    {
        if ts.len() == 0 {
            self
        } else {
            self.token_applied(ts[0]).tokens_applied(ts.drop_first())
        }
    }
}

fn wire_to_grid(n: u32) -> (r: usize)
    ensures
        r == zero_based(n),
{
    if n == 0 {
        0
    } else {
        (n - 1) as usize
    }
}

fn blank_cells(n: usize) -> (r: Vec<Cell>)
    ensures
        r@ == Seq::new(n as nat, |i: int| blank_cell()),
{
    let mut v: Vec<Cell> = Vec::new();
    let mut i: usize = 0;
    while i < n
        invariant
            i <= n,
            v@ == Seq::new(i as nat, |k: int| blank_cell()),
        decreases n - i,
    {
        v.push(Cell::default());
        i = i + 1;
        assert(v@ =~= Seq::new(i as nat, |k: int| blank_cell()));
    }
    v
}

fn apply_op(b: &mut Buffer<Cell>, op: BufOp)
    requires
        old(b).wf(),
        op_allowed(old(b)@, op),
    ensures
        final(b).wf(),
        final(b)@ == buffer_op(old(b)@, op),
{
    match op {
        BufOp::Newline(m) => b.newline(m),
        BufOp::Return => b.carriage_return(),
        BufOp::Backspace => b.backspace(),
        BufOp::ReverseIndex => b.unshift_row(),
        BufOp::Clear(s) => b.clear_selection(s),
        BufOp::Save => b.save_cursor(),
        BufOp::Restore => b.restore_cursor(),
        BufOp::Region(t, bt) => b.set_top_bottom(t, bt),
        BufOp::Move(d) => b.move_cursor(d),
        BufOp::Position(r, c) => b.set_cursor_position(r, c),
        BufOp::Style(code) => b.set_cursor_style(code),
        BufOp::Resize(r, c) => b.resize(r, c),
        BufOp::Print(ch, st, wrap) => {
            if b.cursor.col == b.cols {
                b.advance_cursor(wrap);
            }
            b.write(ch, st);
            b.advance_cursor(wrap);
        },
    }
}

/// The terminal controller: modes, the primary and alternate buffers and the current style.
pub struct Terminal {
    application_mode: bool,
    newline_mode: bool,
    focus_mode: bool,
    auto_wrap_mode: bool,
    bracketed_paste_mode: bool,
    size: TerminalSize,
    cursor_visible: bool,
    buffer: Buffer<Cell>,
    alternate_buffer: Option<Buffer<Cell>>,
    current_cell_style: CellStyle,
}

impl View for Terminal {
    type V = TerminalView;

    closed spec fn view(&self) -> TerminalView {
        TerminalView {
            application_mode: self.application_mode,
            newline_mode: self.newline_mode,
            focus_mode: self.focus_mode,
            auto_wrap_mode: self.auto_wrap_mode,
            cursor_visible: self.cursor_visible,
            bracketed_paste_mode: self.bracketed_paste_mode,
            size: self.size,
            primary: self.buffer@,
            alternate: match self.alternate_buffer {
                Some(b) => Some(b@),
                None => None,
            },
            style: self.current_cell_style,
        }
    }
}

impl Terminal {
    pub open spec fn wf(&self) -> bool {
        self@.wf()
    }

    pub fn new(size: TerminalSize) -> (r: Self)
        requires
            size.rows >= 1,
            size.cols >= 1,
            size.rows * size.cols <= usize::MAX,
        ensures
            r.wf(),
            r@ == (TerminalView {
                application_mode: false,
                newline_mode: false,
                focus_mode: false,
                auto_wrap_mode: true,
                cursor_visible: true,
                bracketed_paste_mode: false,
                size,
                primary: fresh(size.rows as nat, size.cols as nat),
                alternate: None,
                style: default_style(),
            }),
    {
        let rows = size.rows;
        let cols = size.cols;
        let buffer = Buffer::new(rows, cols, blank_cells(rows * cols));
        Terminal {
            application_mode: false,
            newline_mode: false,
            focus_mode: false,
            auto_wrap_mode: true,
            bracketed_paste_mode: false,
            size,
            cursor_visible: true,
            buffer,
            alternate_buffer: None,
            current_cell_style: CellStyle::default(),
        }
    }

    /// The buffer that is shown: the alternate one while it exists.
    pub fn buffer(&self) -> (r: &Buffer<Cell>)
        requires
            self.wf(),
        ensures
            r.wf(),
            r@ == self@.active(),
    {
        match &self.alternate_buffer {
            Some(b) => b,
            None => &self.buffer,
        }
    }

    pub fn cursor_visible(&self) -> (r: bool)
        ensures
            r == self@.cursor_visible,
    {
        self.cursor_visible
    }

    pub fn application_mode(&self) -> (r: bool)
        ensures
            r == self@.application_mode,
    {
        self.application_mode
    }

    pub fn newline_mode(&self) -> (r: bool)
        ensures
            r == self@.newline_mode,
    {
        self.newline_mode
    }

    pub fn focus_mode(&self) -> (r: bool)
        ensures
            r == self@.focus_mode,
    {
        self.focus_mode
    }

    pub fn auto_wrap_mode(&self) -> (r: bool)
        ensures
            r == self@.auto_wrap_mode,
    {
        self.auto_wrap_mode
    }

    pub fn bracketed_paste_mode(&self) -> (r: bool)
        ensures
            r == self@.bracketed_paste_mode,
    {
        self.bracketed_paste_mode
    }

    pub fn current_cell_style(&self) -> (r: CellStyle)
        ensures
            r == self@.style,
    {
        self.current_cell_style
    }

    pub fn size(&self) -> (r: TerminalSize)
        ensures
            r == self@.size,
    {
        self.size
    }

    fn on_active(&mut self, op: BufOp)
        requires
            old(self).wf(),
            op_allowed(old(self)@.active(), op),
        ensures
            final(self).wf(),
            final(self)@ == old(self)@.on_active(op),
    {
        match &mut self.alternate_buffer {
            Some(b) => apply_op(b, op),
            None => apply_op(&mut self.buffer, op),
        }
    }

    fn set_private_mode(&mut self, n: u32, on: bool)
        requires
            old(self).wf(),
        ensures
            final(self).wf(),
            final(self)@ == old(self)@.private_mode(n, on),
    {
        if n == 1 {
            self.application_mode = on;
        } else if n == 7 {
            self.auto_wrap_mode = on;
        } else if n == 25 {
            self.cursor_visible = on;
        } else if n == 1004 {
            self.focus_mode = on;
        } else if n == 2004 {
            self.bracketed_paste_mode = on;
        } else if n == 1049 {
            if on {
                let rows = self.buffer().rows;
                let cols = self.buffer().cols;
                self.alternate_buffer = Some(Buffer::new(rows, cols, blank_cells(rows * cols)));
            } else {
                self.alternate_buffer = None;
            }
        }
    }

    fn apply_csi(&mut self, csi: &CSISequence)
        requires
            old(self).wf(),
        ensures
            final(self).wf(),
            final(self)@ == old(self)@.csi_applied(csi@),
    {
        let cur = self.buffer().cursor;
        match csi {
            CsiSeq::CursorPos(r, c) => self.on_active(BufOp::Position(wire_to_grid(*r), wire_to_grid(*c))),
            CsiSeq::CursorUp(n) => self.on_active(BufOp::Move(Direction::Up(*n as usize))),
            CsiSeq::CursorDown(n) => self.on_active(BufOp::Move(Direction::Down(*n as usize))),
            CsiSeq::CursorForward(n) => self.on_active(BufOp::Move(Direction::Right(*n as usize))),
            CsiSeq::CursorBackward(n) => self.on_active(BufOp::Move(Direction::Left(*n as usize))),
            CsiSeq::LinePositionAbsolute(n) => self.on_active(BufOp::Position(wire_to_grid(*n), cur.col)),
            CsiSeq::CursorCharacterAbsolute(n) => self.on_active(BufOp::Position(cur.row, wire_to_grid(*n))),
            CsiSeq::CursorStyle(n) => self.on_active(BufOp::Style(*n)),
            CsiSeq::CursorSave => self.on_active(BufOp::Save),
            CsiSeq::CursorRestore => self.on_active(BufOp::Restore),
            CsiSeq::DecPrivateModeSet(n) => self.set_private_mode(*n, true),
            CsiSeq::DecPrivateModeReset(n) => self.set_private_mode(*n, false),
            CsiSeq::EraseDisplay(n) => {
                if *n == 0 {
                    self.on_active(BufOp::Clear(Selection::ToEndOfDisplay));
                } else if *n == 1 {
                    self.on_active(BufOp::Clear(Selection::FromStartOfDisplay));
                } else if *n == 2 {
                    self.on_active(BufOp::Clear(Selection::Display));
                }
            },
            CsiSeq::EraseCharacters(n) => self.on_active(BufOp::Clear(Selection::Characters(*n))),
            CsiSeq::EraseInLine(n) => {
                if *n == 0 {
                    self.on_active(BufOp::Clear(Selection::ToEndOfLine));
                } else if *n == 1 {
                    self.on_active(BufOp::Clear(Selection::FromStartOfLine));
                } else if *n == 2 {
                    self.on_active(BufOp::Clear(Selection::Line));
                }
            },
            CsiSeq::SetGraphicsMode(v) => self.current_cell_style.modify(sgr_slice(v)),
            CsiSeq::SetMode(_) => {},
            CsiSeq::ResetMode(_) => {},
            CsiSeq::SetNewLineMode => self.newline_mode = true,
            CsiSeq::SetLineFeedMode => self.newline_mode = false,
            CsiSeq::SetTopAndBottom(t, b) => self.on_active(BufOp::Region(wire_to_grid(*t), wire_to_grid(*b))),
        }
    }

    fn apply_sequence(&mut self, a: &AnsiSequence)
        requires
            old(self).wf(),
        ensures
            final(self).wf(),
            final(self)@ == old(self)@.seq_applied(a@),
    {
        proof {
            reveal(TerminalView::seq_applied);
        }
        match a {
            AnsiSeq::CSI(c) => self.apply_csi(c),
            AnsiSeq::OSC(_) => {},
            AnsiSeq::ESC(e) => {
                if *e == ESCSequence::ReverseIndex {
                    self.on_active(BufOp::ReverseIndex);
                }
            },
        }
    }

    fn print_chars(&mut self, t: &Vec<char>)
        requires
            old(self).wf(),
        ensures
            final(self).wf(),
            final(self)@ == old(self)@.chars_printed(t@),
    {
        let mut i: usize = 0;
        assert(t@.skip(0) =~= t@);
        while i < t.len()
            invariant
                self.wf(),
                i <= t@.len(),
                self@.chars_printed(t@.skip(i as int)) == old(self)@.chars_printed(t@),
            decreases t@.len() - i,
        {
            proof {
                assert(t@.skip(i as int).drop_first() =~= t@.skip(i + 1));
            }
            let style = self.current_cell_style;
            let wrap = self.auto_wrap_mode;
            self.on_active(BufOp::Print(t[i], style, wrap));
            i = i + 1;
        }
        assert(t@.skip(i as int).len() == 0);
    }

    fn apply_block(&mut self, b: &Output)
        requires
            old(self).wf(),
        ensures
            final(self).wf(),
            final(self)@ == old(self)@.block_applied(b@),
    {
        proof {
            reveal(TerminalView::block_applied);
        }
        match b {
            Block::TextBlock(t) => {
                assert(b@ == Block::<Seq<char>, Seq<u8>>::TextBlock(t@));
                self.print_chars(t);
            },
            Block::AnsiSequence(a) => self.apply_sequence(a),
        }
    }

    fn apply_token(&mut self, t: &TerminalOutput)
        requires
            old(self).wf(),
        ensures
            final(self).wf(),
            final(self)@ == old(self)@.token_applied(t@),
    {
        proof {
            reveal(TerminalView::token_applied);
        }
        match t {
            TermOut::Text(s) => self.handle_ansi(s.as_str()),
            TermOut::NewLine => {
                let m = self.newline_mode;
                self.on_active(BufOp::Newline(m));
            },
            TermOut::CarriageReturn => self.on_active(BufOp::Return),
            TermOut::Backspace => self.on_active(BufOp::Backspace),
        }
    }

    /// Interprets text that may hold escape sequences.
    pub fn handle_ansi(&mut self, ansi_text: &str)
        requires
            old(self).wf(),
        ensures
            final(self).wf(),
            final(self)@ == old(self)@.blocks_applied(blocks_from(ansi_text@, 0)),
            final(self)@.active().data.len() == final(self)@.active().rows * final(self)@.active().cols,
            final(self)@.active().cursor.row < final(self)@.active().rows,
            final(self)@.active().cursor.col <= final(self)@.active().cols,
    {
        let chars = chars_of(ansi_text);
        self.handle_chars(&chars);
    }

    /// Interprets characters that may hold escape sequences.
    pub fn handle_chars(&mut self, text: &Vec<char>)
        requires
            old(self).wf(),
        ensures
            final(self).wf(),
            final(self)@ == old(self)@.blocks_applied(blocks_from(text@, 0)),
            final(self)@.active().data.len() == final(self)@.active().rows * final(self)@.active().cols,
            final(self)@.active().cursor.row < final(self)@.active().rows,
            final(self)@.active().cursor.col <= final(self)@.active().cols,
    {
        let blocks = ansi_parse(text.as_slice());
        let ghost bs = Seq::new(blocks@.len(), |k: int| blocks@[k]@);
        let mut i: usize = 0;
        assert(bs.skip(0) =~= bs);
        while i < blocks.len()
            invariant
                self.wf(),
                i <= blocks@.len(),
                bs == Seq::new(blocks@.len(), |k: int| blocks@[k]@),
                bs == blocks_from(text@, 0),
                self@.blocks_applied(bs.skip(i as int)) == old(self)@.blocks_applied(bs),
            decreases blocks@.len() - i,
        {
            proof {
                assert(bs.skip(i as int).drop_first() =~= bs.skip(i + 1));
            }
            self.apply_block(&blocks[i]);
            i = i + 1;
        }
        assert(bs.skip(i as int).len() == 0);
    }

    /// Applies a batch of framed PTY tokens in order.
    pub fn parse(&mut self, output: Vec<TerminalOutput>)
        requires
            old(self).wf(),
        ensures
            final(self).wf(),
            final(self)@ == old(self)@.tokens_applied(Seq::new(output@.len(), |k: int| output@[k]@)),
            final(self)@.active().data.len() == final(self)@.active().rows * final(self)@.active().cols,
            final(self)@.active().cursor.row < final(self)@.active().rows,
            final(self)@.active().cursor.col <= final(self)@.active().cols,
    {
        let ghost ts = Seq::new(output@.len(), |k: int| output@[k]@);
        let mut i: usize = 0;
        assert(ts.skip(0) =~= ts);
        while i < output.len()
            invariant
                self.wf(),
                i <= output@.len(),
                ts == Seq::new(output@.len(), |k: int| output@[k]@),
                self@.tokens_applied(ts.skip(i as int)) == old(self)@.tokens_applied(ts),
            decreases output@.len() - i,
        {
            proof {
                assert(ts.skip(i as int).drop_first() =~= ts.skip(i + 1));
            }
            self.apply_token(&output[i]);
            i = i + 1;
        }
        assert(ts.skip(i as int).len() == 0);
    }

    /// The bytes to send when the window gains focus: `ESC [ I` while focus reporting is on.
    pub fn focus(&self) -> (r: Option<TermMessage>)
        ensures
            self@.focus_mode ==> (r matches Some(TermMessage::Bytes(b)) && b@ == seq![0x1bu8, 0x5bu8, 0x49u8]),
            !self@.focus_mode ==> r is None,
    {
        if self.focus_mode {
            Some(TermMessage::Bytes(vec![0x1b, 0x5b, 0x49]))
        } else {
            None
        }
    }

    /// The bytes to send when the window loses focus: `ESC [ O` while focus reporting is on.
    pub fn unfocus(&self) -> (r: Option<TermMessage>)
        ensures
            self@.focus_mode ==> (r matches Some(TermMessage::Bytes(b)) && b@ == seq![0x1bu8, 0x5bu8, 0x4fu8]),
            !self@.focus_mode ==> r is None,
    {
        if self.focus_mode {
            Some(TermMessage::Bytes(vec![0x1b, 0x5b, 0x4f]))
        } else {
            None
        }
    }

    /// The bytes to send for a focus change, when focus reporting is on.
    pub fn focus_changed(&self, focus: WindowFocus) -> (r: Option<TermMessage>)
        ensures
            self@.focus_mode ==> (r matches Some(TermMessage::Bytes(b)) && b@ == focus_report(focus)),
            !self@.focus_mode ==> r is None,
    {
        match focus {
            WindowFocus::Focus => self.focus(),
            WindowFocus::Unfocus => self.unfocus(),
        }
    }

    /// Resizes the active buffer and gives the notification for the PTY, as `(cols, rows)`.
    pub fn resize(&mut self, new_size: TerminalSize) -> (r: TermMessage)
        requires
            old(self).wf(),
            new_size.rows >= 1,
            new_size.cols >= 1,
            new_size.rows * new_size.cols <= usize::MAX,
        ensures
            final(self).wf(),
            final(self)@ == (TerminalView { size: new_size, ..old(self)@.on_active(BufOp::Resize(new_size.rows, new_size.cols)) }),
            r == TermMessage::WindowResized(new_size.cols, new_size.rows),
    {
        self.on_active(BufOp::Resize(new_size.rows, new_size.cols));
        self.size = new_size;
        TermMessage::WindowResized(new_size.cols, new_size.rows)
    }
}

} // verus!
