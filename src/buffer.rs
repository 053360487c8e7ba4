use vstd::prelude::*;
use crate::cell::{Cell, CellStyle};
use crate::cursor::{back_clamped, forward_clamped, style_for_code, Cursor, Direction};

verus! {

/// A value that fills cleared or newly created grid positions.
pub trait Blank: Sized + Copy {
    spec fn blank_spec() -> Self;

    fn blank() -> (r: Self)
        ensures
            r == Self::blank_spec(),
    ;
}

impl Blank for i32 {
    open spec fn blank_spec() -> i32 {
        0
    }

    fn blank() -> (r: i32) {
        0
    }
}

/// A range of positions to clear, relative to the cursor. `Characters(n)` runs from the cursor
/// over `n` cells, across row ends, up to the end of the grid.
#[derive(Debug, Clone, Copy, PartialEq, Eq, Structural)]
pub enum Selection {
    Line,
    FromStartOfLine,
    ToEndOfLine,
    ToEndOfDisplay,
    FromStartOfDisplay,
    Display,
    Characters(u32),
}

/// The mathematical content of a buffer.
pub struct BufferView<T> {
    pub rows: nat,
    pub cols: nat,
    pub data: Seq<T>,
    pub top: nat,
    pub bottom: nat,
    pub cursor: Cursor,
    pub saved_cursor: Option<Cursor>,
}

/// `data` with positions `from..to` set to blank.
pub open spec fn blanked<T: Blank>(data: Seq<T>, from: int, to: int) -> Seq<T> {
    Seq::new(data.len(), |i: int| if from <= i < to { T::blank_spec() } else { data[i] })
}

/// `data` with the rows `top..=bottom` (each `cols` long) moved up by one, the last of them blank.
pub open spec fn region_up<T: Blank>(data: Seq<T>, cols: int, top: int, bottom: int) -> Seq<T> {
    Seq::new(
        data.len(),
        |i: int|
            if top * cols <= i < bottom * cols {
                data[i + cols]
            } else if bottom * cols <= i < (bottom + 1) * cols {
                T::blank_spec()
            } else {
                data[i]
            },
    )
}

/// `data` with the rows `top..=bottom` moved down by one, the first of them blank.
pub open spec fn region_down<T: Blank>(data: Seq<T>, cols: int, top: int, bottom: int) -> Seq<T> {
    Seq::new(
        data.len(),
        |i: int|
            if top * cols <= i < (top + 1) * cols {
                T::blank_spec()
            } else if (top + 1) * cols <= i < (bottom + 1) * cols {
                data[i - cols]
            } else {
                data[i]
            },
    )
}

/// `data` cut or padded with blanks to length `len`.
pub open spec fn fitted<T: Blank>(data: Seq<T>, len: nat) -> Seq<T> {
    Seq::new(len, |i: int| if i < data.len() { data[i] } else { T::blank_spec() })
}

pub open spec fn cursor_in(c: Cursor, rows: nat, cols: nat) -> bool {
    c.row < rows && c.col <= cols
}

/// A cursor moved inside a `rows x cols` grid: the row to the last row at most, the
/// column kept if it is at most `cols` (pending wrap included), else put on the last column.
pub open spec fn clamp_cursor(c: Cursor, rows: nat, cols: nat) -> Cursor {
    Cursor {
        row: if c.row < rows { c.row } else { (rows - 1) as usize },
        col: if c.col <= cols { c.col } else { (cols - 1) as usize },
        style: c.style,
    }
}

impl<T: Blank> BufferView<T> {
    pub open spec fn wf(self) -> bool {
        &&& self.rows >= 1
        &&& self.cols >= 1
        &&& self.data.len() == self.rows * self.cols
        &&& self.rows * self.cols <= usize::MAX
        &&& self.top <= self.bottom < self.rows
        &&& cursor_in(self.cursor, self.rows, self.cols)
        &&& (self.saved_cursor matches Some(s) ==> cursor_in(s, self.rows, self.cols))
    }

    /// Index of the cursor position in the row-major data.
    pub open spec fn cursor_index(self) -> int {
        self.cursor.row * self.cols + self.cursor.col
    }

    pub open spec fn with_cursor(self, c: Cursor) -> Self {
        BufferView { cursor: c, ..self }
    }

    /// The scroll region moved up by one line.
    pub open spec fn shifted(self) -> Self {
        BufferView { data: region_up(self.data, self.cols as int, self.top as int, self.bottom as int), ..self }
    }

    /// Reverse index: at the top of the scroll region the region moves down, else the cursor moves up.
    pub open spec fn unshifted(self) -> Self {
        if self.cursor.row == self.top {
            BufferView {
                data: region_down(self.data, self.cols as int, self.top as int, self.bottom as int),
                ..self
            }
        } else {
            self.with_cursor(Cursor { row: back_clamped(self.cursor.row, 1, (self.rows - 1) as usize), ..self.cursor })
        }
    }

    /// Positions `(from, to)` that a selection covers.
    pub open spec fn selection_range(self, s: Selection) -> (int, int) {
        let base = self.cursor.row * self.cols;
        let here = self.cursor_index();
        match s {
            Selection::Line => (base, base + self.cols),
            Selection::FromStartOfLine => (base, here),
            Selection::ToEndOfLine => (here, base + self.cols),
            Selection::ToEndOfDisplay => (here, self.data.len() as int),
            Selection::FromStartOfDisplay => (0, here),
            Selection::Display => (0, self.data.len() as int),
            Selection::Characters(n) => (here, if here + n > self.data.len() { self.data.len() as int } else { here + n }),
        }
    }

    pub open spec fn cleared(self, s: Selection) -> Self {
        let (from, to) = self.selection_range(s);
        BufferView { data: blanked(self.data, from, to), ..self }
    }

    /// Rows dropped from the top when shrinking, then the data cut or padded to the new shape.
    pub open spec fn resized(self, rows: nat, cols: nat) -> Self {
        let kept = if rows < self.rows { self.data.skip(((self.rows - rows) * self.cols) as int) } else { self.data };
        BufferView {
            rows,
            cols,
            data: fitted(kept, rows * cols),
            top: 0,
            bottom: (rows - 1) as nat,
            cursor: clamp_cursor(self.cursor, rows, cols),
            saved_cursor: match self.saved_cursor {
                Some(c) => Some(clamp_cursor(c, rows, cols)),
                None => None,
            },
        }
    }

    /// One line down: scrolls the region on the last row, and with `newline_mode` also returns to column 0.
    pub open spec fn newlined(self, newline_mode: bool) -> Self {
        let b = if self.cursor.row == self.rows - 1 {
            self.shifted()
        } else {
            self.with_cursor(Cursor { row: (self.cursor.row + 1) as usize, ..self.cursor })
        };
        if newline_mode {
            b.with_cursor(Cursor { col: 0, ..b.cursor })
        } else {
            b
        }
    }

    pub open spec fn returned(self) -> Self {
        self.with_cursor(Cursor { col: 0, ..self.cursor })
    }

    pub open spec fn backspaced(self) -> Self {
        self.with_cursor(Cursor { col: back_clamped(self.cursor.col, 1, self.cols as usize), ..self.cursor })
    }

    pub open spec fn saved(self) -> Self {
        BufferView { saved_cursor: Some(self.cursor), ..self }
    }

    pub open spec fn restored(self) -> Self {
        match self.saved_cursor {
            Some(c) => BufferView { cursor: c, saved_cursor: None, ..self },
            None => self,
        }
    }

    pub open spec fn with_region(self, top: nat, bottom: nat) -> Self {
        let b = if bottom < self.rows { bottom } else { (self.rows - 1) as nat };
        BufferView { top: if top <= b { top } else { b }, bottom: b, ..self }
    }

    pub open spec fn advanced(self, wrap: bool) -> Self {
        if self.cursor.col == self.cols && wrap {
            self.newlined(true)
        } else if self.cursor.col != self.cols {
            self.with_cursor(Cursor { col: (self.cursor.col + 1) as usize, ..self.cursor })
        } else {
            self
        }
    }

    pub open spec fn moved(self, d: Direction) -> Self {
        let c = self.cursor;
        let last_row = (self.rows - 1) as usize;
        let last_col = (self.cols - 1) as usize;
        self.with_cursor(
            match d {
                Direction::Up(n) => Cursor { row: back_clamped(c.row, n, last_row), ..c },
                Direction::Down(n) => Cursor { row: forward_clamped(c.row, n, last_row), ..c },
                Direction::Left(n) => Cursor { col: back_clamped(c.col, n, last_col), ..c },
                Direction::Right(n) => Cursor { col: forward_clamped(c.col, n, last_col), ..c },
            },
        )
    }

    /// The cursor placed at `(row, col)`, each capped at the last row and column.
    pub open spec fn positioned(self, row: nat, col: nat) -> Self {
        self.with_cursor(
            Cursor {
                row: if row < self.rows { row as usize } else { (self.rows - 1) as usize },
                col: if col < self.cols { col as usize } else { (self.cols - 1) as usize },
                ..self.cursor
            },
        )
    }

    /// `x` stored at the cursor when the cursor is on a cell.
    pub open spec fn written(self, x: T) -> Self {
        if self.cursor.col < self.cols {
            BufferView { data: self.data.update(self.cursor_index(), x), ..self }
        } else {
            self
        }
    }

    /// Cell at `(row, col)`.
    pub open spec fn at(self, row: int, col: int) -> T {
        self.data[row * self.cols + col]
    }
}

pub(crate) proof fn lemma_row_bounds(r: int, c: int, rows: int, cols: int)
    requires
        0 <= r < rows,
        0 <= c <= cols,
        cols >= 1,
    ensures
        0 <= r * cols,
        r * cols + c <= (r + 1) * cols,
        (r + 1) * cols <= rows * cols,
        (r + 1) * cols == r * cols + cols,
{
    assert(0 <= r * cols) by (nonlinear_arith)
        requires
            0 <= r,
            0 <= cols,
    ;
    assert((r + 1) * cols == r * cols + cols) by (nonlinear_arith);
    assert((r + 1) * cols <= rows * cols) by (nonlinear_arith)
        requires
            r + 1 <= rows,
            cols >= 1,
    ;
}

pub(crate) fn fill_range<T: Blank>(data: &mut Vec<T>, from: usize, to: usize)
    requires
        from <= to <= old(data)@.len(),
    ensures
        final(data)@ == blanked(old(data)@, from as int, to as int),
{
    let mut i = from;
    while i < to
        invariant
            from <= i <= to <= data@.len(),
            data@.len() == old(data)@.len(),
            forall|j: int| 0 <= j < data@.len() ==> data@[j] == (if from <= j < i { T::blank_spec() } else { old(data)@[j] }),
        decreases to - i,
    {
        data.set(i, T::blank());
        i = i + 1;
    }
    assert(data@ =~= blanked(old(data)@, from as int, to as int));
}

/// Moves `data[from + k..to]` to `data[from..to - k]`.
pub(crate) fn move_back<T: Blank>(data: &mut Vec<T>, from: usize, to: usize, k: usize)
    requires
        from + k <= to <= old(data)@.len(),
    ensures
        final(data)@.len() == old(data)@.len(),
        forall|j: int| 0 <= j < old(data)@.len() ==> final(data)@[j] == (if from <= j < to - k { old(data)@[j + k] } else { old(data)@[j] }),
{
    let mut i = from;
    while i < to - k
        invariant
            from <= i <= to - k,
            from + k <= to <= data@.len(),
            data@.len() == old(data)@.len(),
            forall|j: int| 0 <= j < data@.len() ==> data@[j] == (if from <= j < i { old(data)@[j + k] } else { old(data)@[j] }),
        decreases to - k - i,
    {
        let x = data[i + k];
        data.set(i, x);
        i = i + 1;
    }
}

/// Moves `data[from..to - k]` to `data[from + k..to]`.
fn move_forward<T: Blank>(data: &mut Vec<T>, from: usize, to: usize, k: usize)
    requires
        from + k <= to <= old(data)@.len(),
    ensures
        final(data)@.len() == old(data)@.len(),
        forall|j: int| 0 <= j < old(data)@.len() ==> final(data)@[j] == (if from + k <= j < to { old(data)@[j - k] } else { old(data)@[j] }),
{
    let mut i = to;
    while i > from + k
        invariant
            from + k <= i <= to,
            to <= data@.len(),
            data@.len() == old(data)@.len(),
            forall|j: int| 0 <= j < data@.len() ==> data@[j] == (if i <= j < to { old(data)@[j - k] } else { old(data)@[j] }),
        decreases i,
    {
        i = i - 1;
        let x = data[i - k];
        data.set(i, x);
    }
}

/// A `rows x cols` grid of cells stored row by row, with a cursor, a saved cursor and a scroll region.
#[derive(Debug)]
pub struct Buffer<T> {
    pub rows: usize,
    pub cols: usize,
    pub data: Vec<T>,
    pub top: usize,
    pub bottom: usize,
    pub cursor: Cursor,
    pub saved_cursor: Option<Cursor>,
}

impl<T> View for Buffer<T> {
    type V = BufferView<T>;

    open spec fn view(&self) -> BufferView<T> {
        BufferView {
            rows: self.rows as nat,
            cols: self.cols as nat,
            data: self.data@,
            top: self.top as nat,
            bottom: self.bottom as nat,
            cursor: self.cursor,
            saved_cursor: self.saved_cursor,
        }
    }
}

impl<T: Blank> Buffer<T> {
    pub open spec fn wf(&self) -> bool {
        &&& self@.wf()
        &&& self.data@.len() <= usize::MAX
    }

    pub fn new(rows: usize, cols: usize, data: Vec<T>) -> (r: Self)
        requires
            rows >= 1,
            cols >= 1,
            data@.len() == rows * cols,
        ensures
            r.wf(),
            r@ == (BufferView {
                rows: rows as nat,
                cols: cols as nat,
                data: data@,
                top: 0,
                bottom: (rows - 1) as nat,
                cursor: Cursor { row: 0, col: 0, style: crate::cursor::CursorStyle::SteadyBlock },
                saved_cursor: None,
            }),
    {
        // A vector's length fits in usize, and so then does rows * cols.
        let _len = data.len();
        Buffer { rows, cols, data, top: 0, bottom: rows - 1, cursor: Cursor::default(), saved_cursor: None }
    }

    /// The row-major cells.
    pub fn data(&self) -> (r: &Vec<T>)
        ensures
            r@ == self@.data,
    {
        &self.data
    }

    /// The scroll region as `(top, bottom)`, zero-based and inclusive.
    pub fn scroll_region(&self) -> (r: (usize, usize))
        ensures
            r.0 == self@.top,
            r.1 == self@.bottom,
    {
        (self.top, self.bottom)
    }

    pub fn saved_cursor(&self) -> (r: Option<Cursor>)
        ensures
            r == self@.saved_cursor,
    {
        self.saved_cursor
    }

    /// The cell under `cursor`, if that position lies on the grid.
    pub fn get(&self, cursor: Cursor) -> (r: Option<T>)
        requires
            self.wf(),
        ensures
            (cursor.row < self.rows && cursor.col < self.cols) ==> r == Some(self@.at(cursor.row as int, cursor.col as int)),
            !(cursor.row < self.rows && cursor.col < self.cols) ==> r is None,
    {
        if cursor.row < self.rows && cursor.col < self.cols {
            proof {
                lemma_row_bounds(cursor.row as int, cursor.col as int, self.rows as int, self.cols as int);
            }
            Some(self.data[cursor.row * self.cols + cursor.col])
        } else {
            None
        }
    }

    /// The grid cut into rows, top to bottom.
    pub fn iter_rows(&self) -> (r: Vec<Vec<T>>)
        requires
            self.wf(),
        ensures
            r@.len() == self.rows,
            forall|i: int| 0 <= i < self.rows ==> #[trigger] r@[i]@ == self@.data.subrange(i * self.cols, (i + 1) * self.cols),
    {
        let mut out: Vec<Vec<T>> = Vec::new();
        let mut i: usize = 0;
        while i < self.rows
            invariant
                self.wf(),
                i <= self.rows,
                out@.len() == i,
                forall|k: int| 0 <= k < i ==> #[trigger] out@[k]@ == self@.data.subrange(k * self.cols, (k + 1) * self.cols),
            decreases self.rows - i,
        {
            proof {
                lemma_row_bounds(i as int, 0, self.rows as int, self.cols as int);
            }
            let start = i * self.cols;
            let mut row: Vec<T> = Vec::new();
            let mut j: usize = 0;
            while j < self.cols
                invariant
                    self.wf(),
                    i < self.rows,
                    start == i * self.cols,
                    start + self.cols <= self@.data.len(),
                    j <= self.cols,
                    row@ == self@.data.subrange(start as int, start + j),
                decreases self.cols - j,
            {
                row.push(self.data[start + j]);
                j = j + 1;
                assert(row@ =~= self@.data.subrange(start as int, start + j));
            }
            out.push(row);
            i = i + 1;
        }
        out
    }

    /// Moves the scroll region up one line; its last line becomes blank.
    pub fn shift_row(&mut self)
        requires
            old(self).wf(),
        ensures
            final(self).wf(),
            final(self)@ == old(self)@.shifted(),
    {
        proof {
            lemma_row_bounds(self.bottom as int, 0, self.rows as int, self.cols as int);
            lemma_row_bounds(self.top as int, 0, self.rows as int, self.cols as int);
            assert(self.top * self.cols <= self.bottom * self.cols) by (nonlinear_arith)
                requires
                    self.top <= self.bottom,
            ;
        }
        let from = self.top * self.cols;
        let to = (self.bottom + 1) * self.cols;
        move_back(&mut self.data, from, to, self.cols);
        fill_range(&mut self.data, to - self.cols, to);
        assert(self.data@ =~= region_up(old(self)@.data, self.cols as int, self.top as int, self.bottom as int));
    }

    /// Reverse index: at the top of the scroll region the region moves down one line and its
    /// first line becomes blank; elsewhere the cursor moves up one row.
    pub fn unshift_row(&mut self)
        requires
            old(self).wf(),
        ensures
            final(self).wf(),
            final(self)@ == old(self)@.unshifted(),
    {
        if self.cursor.row == self.top {
            proof {
                lemma_row_bounds(self.bottom as int, 0, self.rows as int, self.cols as int);
                lemma_row_bounds(self.top as int, 0, self.rows as int, self.cols as int);
                assert(self.top * self.cols <= self.bottom * self.cols) by (nonlinear_arith)
                    requires
                        self.top <= self.bottom,
                ;
            }
            let from = self.top * self.cols;
            let to = (self.bottom + 1) * self.cols;
            move_forward(&mut self.data, from, to, self.cols);
            fill_range(&mut self.data, from, from + self.cols);
            assert(self.data@ =~= region_down(old(self)@.data, self.cols as int, self.top as int, self.bottom as int));
        } else {
            let last = self.rows - 1;
            self.cursor.up(1, last);
        }
    }

    pub fn clear_selection(&mut self, selection: Selection)
        requires
            old(self).wf(),
        ensures
            final(self).wf(),
            final(self)@ == old(self)@.cleared(selection),
    {
        proof {
            lemma_row_bounds(self.cursor.row as int, self.cursor.col as int, self.rows as int, self.cols as int);
        }
        let base = self.cursor.row * self.cols;
        let here = base + self.cursor.col;
        let end_of_line = base + self.cols;
        let len = self.data.len();
        let (from, to) = match selection {
            Selection::Line => (base, end_of_line),
            Selection::FromStartOfLine => (base, here),
            Selection::ToEndOfLine => (here, end_of_line),
            Selection::ToEndOfDisplay => (here, len),
            Selection::FromStartOfDisplay => (0, here),
            Selection::Display => (0, len),
            Selection::Characters(n) => {
                let room = len - here;
                if (n as usize) > room {
                    (here, len)
                } else {
                    (here, here + n as usize)
                }
            },
        };
        fill_range(&mut self.data, from, to);
    }

    pub fn resize(&mut self, rows: usize, cols: usize)
        requires
            old(self).wf(),
            rows >= 1,
            cols >= 1,
            rows * cols <= usize::MAX,
        ensures
            final(self).wf(),
            final(self)@ == old(self)@.resized(rows as nat, cols as nat),
    {
        let ghost old_view = self@;
        let mut kept: Vec<T> = Vec::new();
        let start: usize = if rows < self.rows {
            proof {
                assert((self.rows - rows) * self.cols <= self.rows * self.cols) by (nonlinear_arith)
                    requires
                        rows < self.rows,
                        rows >= 1,
                ;
            }
            (self.rows - rows) * self.cols
        } else {
            0
        };
        let new_len = rows * cols;
        let mut i: usize = 0;
        let avail = self.data.len() - start;
        while i < new_len
            invariant
                self@ == old_view,
                self.data@.len() <= usize::MAX,
                start + avail == self@.data.len(),
                i <= new_len,
                kept@.len() == i,
                forall|j: int| 0 <= j < i ==> #[trigger] kept@[j] == (if j < avail { self@.data[start + j] } else { T::blank_spec() }),
            decreases new_len - i,
        {
            if i < avail {
                kept.push(self.data[start + i]);
            } else {
                kept.push(T::blank());
            }
            i = i + 1;
        }
        let ghost skipped = if rows < old_view.rows { old_view.data.skip(((old_view.rows - rows) * old_view.cols) as int) } else { old_view.data };
        assert(kept@ =~= fitted(skipped, (rows * cols) as nat));
        self.data = kept;
        self.rows = rows;
        self.cols = cols;
        self.top = 0;
        self.bottom = rows - 1;
        self.cursor = clamp(self.cursor, rows, cols);
        self.saved_cursor = match self.saved_cursor {
            Some(c) => Some(clamp(c, rows, cols)),
            None => None,
        };
    }

    pub fn newline(&mut self, newline_mode: bool)
        requires
            old(self).wf(),
        ensures
            final(self).wf(),
            final(self)@ == old(self)@.newlined(newline_mode),
    {
        if self.cursor.row == self.rows - 1 {
            self.shift_row();
        } else {
            self.cursor.row = self.cursor.row + 1;
        }
        if newline_mode {
            self.cursor.col = 0;
        }
    }

    pub fn carriage_return(&mut self)
        requires
            old(self).wf(),
        ensures
            final(self).wf(),
            final(self)@ == old(self)@.returned(),
    {
        self.cursor.col = 0;
    }

    /// Moves the cursor one column left, without erasing.
    pub fn backspace(&mut self)
        requires
            old(self).wf(),
        ensures
            final(self).wf(),
            final(self)@ == old(self)@.backspaced(),
    {
        let cols = self.cols;
        self.cursor.left(1, cols);
    }

    pub fn save_cursor(&mut self)
        requires
            old(self).wf(),
        ensures
            final(self).wf(),
            final(self)@ == old(self)@.saved(),
    {
        self.saved_cursor = Some(self.cursor);
    }

    /// Puts back the saved cursor, if any, and forgets it.
    pub fn restore_cursor(&mut self)
        requires
            old(self).wf(),
        ensures
            final(self).wf(),
            final(self)@ == old(self)@.restored(),
    {
        if let Some(cursor) = self.saved_cursor {
            self.cursor = cursor;
            self.saved_cursor = None;
        }
    }

    /// Sets the zero-based, inclusive scroll region; out-of-range bounds are capped.
    pub fn set_top_bottom(&mut self, top: usize, bottom: usize)
        requires
            old(self).wf(),
        ensures
            final(self).wf(),
            final(self)@ == old(self)@.with_region(top as nat, bottom as nat),
    {
        let b = if bottom < self.rows { bottom } else { self.rows - 1 };
        self.top = if top <= b { top } else { b };
        self.bottom = b;
    }

    /// Moves past a written cell: one column right, or, at the pending-wrap column and with
    /// `wrap_on_end`, to the start of the next line (scrolling on the last row).
    pub fn advance_cursor(&mut self, wrap_on_end: bool)
        requires
            old(self).wf(),
        ensures
            final(self).wf(),
            final(self)@ == old(self)@.advanced(wrap_on_end),
    {
        let cursor_at_end = self.cursor.col == self.cols;
        if cursor_at_end && wrap_on_end {
            self.newline(true);
        } else if !cursor_at_end {
            self.cursor.col = self.cursor.col + 1;
        }
    }

    pub fn move_cursor(&mut self, direction: Direction)
        requires
            old(self).wf(),
        ensures
            final(self).wf(),
            final(self)@ == old(self)@.moved(direction),
    {
        let last_row = self.rows - 1;
        let last_col = self.cols - 1;
        match direction {
            Direction::Up(n) => self.cursor.up(n, last_row),
            Direction::Down(n) => self.cursor.down(n, last_row),
            Direction::Left(n) => self.cursor.left(n, last_col),
            Direction::Right(n) => self.cursor.right(n, last_col),
        }
    }

    /// Places the cursor at a zero-based position, capped at the last row and column.
    pub fn set_cursor_position(&mut self, row: usize, col: usize)
        requires
            old(self).wf(),
        ensures
            final(self).wf(),
            final(self)@ == old(self)@.positioned(row as nat, col as nat),
    {
        let r = if row < self.rows { row } else { self.rows - 1 };
        let c = if col < self.cols { col } else { self.cols - 1 };
        self.cursor.set_position(r, c);
    }

    pub fn set_cursor_style(&mut self, code: u8)
        requires
            old(self).wf(),
        ensures
            final(self).wf(),
            final(self)@ == old(self)@.with_cursor(Cursor { style: style_for_code(code), ..old(self).cursor }),
    {
        self.cursor.set_style(code);
    }

    /// Stores `x` under the cursor, if the cursor is on a cell; the cursor does not move.
    pub fn put(&mut self, x: T)
        requires
            old(self).wf(),
        ensures
            final(self).wf(),
            final(self)@ == old(self)@.written(x),
    {
        if self.cursor.col < self.cols {
            proof {
                lemma_row_bounds(self.cursor.row as int, self.cursor.col as int, self.rows as int, self.cols as int);
            }
            let idx = self.cursor.row * self.cols + self.cursor.col;
            self.data.set(idx, x);
        }
    }
}

impl Buffer<Cell> {
    /// Stores a character in the given style under the cursor, if the cursor is on a cell.
    pub fn write(&mut self, c: char, cell_style: CellStyle)
        requires
            old(self).wf(),
        ensures
            final(self).wf(),
            final(self)@ == old(self)@.written(Cell { content: c, style: cell_style }),
    {
        self.put(Cell { content: c, style: cell_style });
    }
}

fn clamp(c: Cursor, rows: usize, cols: usize) -> (r: Cursor)
    requires
        rows >= 1,
        cols >= 1,
    ensures
        r == clamp_cursor(c, rows as nat, cols as nat),
{
    Cursor {
        row: if c.row < rows { c.row } else { rows - 1 },
        col: if c.col <= cols { c.col } else { cols - 1 },
        style: c.style,
    }
}


/// A cursor motion, for stating what survives any run of them: `move_cursor`,
/// `set_cursor_position`, `Cursor::set_position` on the public cursor, `carriage_return`,
/// `backspace`, `advance_cursor`, `newline` and `unshift_row`.
pub enum Motion {
    Move(Direction),
    Position(nat, nat),
    Place(usize, usize),
    Return,
    Backspace,
    Advance(bool),
    Newline(bool),
    ReverseIndex,
}

impl<T: Blank> BufferView<T> {
    pub open spec fn after_motion(self, m: Motion) -> Self {
        match m {
            Motion::Move(d) => self.moved(d),
            Motion::Position(r, c) => self.positioned(r, c),
            Motion::Place(r, c) => self.with_cursor(Cursor { row: r, col: c, ..self.cursor }),
            Motion::Return => self.returned(),
            Motion::Backspace => self.backspaced(),
            Motion::Advance(w) => self.advanced(w),
            Motion::Newline(nl) => self.newlined(nl),
            Motion::ReverseIndex => self.unshifted(),
        }
    }

    pub open spec fn after_motions(self, ms: Seq<Motion>) -> Self
        decreases ms.len(),
    {
        if ms.len() == 0 {
            self
        } else {
            self.after_motion(ms[0]).after_motions(ms.drop_first())
        }
    }
}

proof fn motions_keep_saved<T: Blank>(b: BufferView<T>, ms: Seq<Motion>)
    ensures
        b.after_motions(ms).saved_cursor == b.saved_cursor,
    decreases ms.len(),
{
    if ms.len() > 0 {
        motions_keep_saved(b.after_motion(ms[0]), ms.drop_first());
    }
}

/// Saving the cursor, moving it in any way, then restoring it gives back the cursor as it was saved.
pub proof fn save_motions_restore<T: Blank>(b: BufferView<T>, ms: Seq<Motion>)
    ensures
        b.saved().after_motions(ms).restored().cursor == b.cursor,
{
    motions_keep_saved(b.saved(), ms);
}

/// A line feed followed by a carriage return is a line feed in newline mode, whatever the mode was.
pub proof fn newline_then_return<T: Blank>(b: BufferView<T>)
    ensures
        b.newlined(false).returned() == b.newlined(true),
        b.newlined(true).returned() == b.newlined(true),
{
}

/// Resizing twice to the same shape is resizing once.
pub proof fn resize_idempotent<T: Blank>(b: BufferView<T>, rows: nat, cols: nat)
    requires
        b.wf(),
        rows >= 1,
        cols >= 1,
        rows * cols <= usize::MAX,
    ensures
        b.resized(rows, cols).wf(),
        b.resized(rows, cols).resized(rows, cols) == b.resized(rows, cols),
{
    let once = b.resized(rows, cols);
    assert(once.data.len() == rows * cols);
    assert(fitted(once.data, rows * cols) =~= once.data);
    assert(once.resized(rows, cols).data =~= once.data);
}

/// Shrinking to fewer rows of the same width drops the top rows and keeps the bottom ones.
pub proof fn shrink_drops_top_rows<T: Blank>(b: BufferView<T>, rows: nat)
    requires
        b.wf(),
        1 <= rows < b.rows,
    ensures
        b.resized(rows, b.cols).data == b.data.skip(((b.rows - rows) * b.cols) as int),
{
    let k = (b.rows - rows) * b.cols;
    assert(b.rows * b.cols - k == rows * b.cols) by (nonlinear_arith)
        requires
            k == (b.rows - rows) * b.cols,
            rows < b.rows,
    ;
    assert(b.resized(rows, b.cols).data =~= b.data.skip(k as int));
}

/// Erasing the line blanks every cell of the cursor's row, keeps the others, and leaves the cursor.
pub proof fn erase_line_clears_row<T: Blank>(b: BufferView<T>)
    requires
        b.wf(),
    ensures
        b.cleared(Selection::Line).cursor == b.cursor,
        forall|c: int| 0 <= c < b.cols ==> #[trigger] b.cleared(Selection::Line).at(b.cursor.row as int, c) == T::blank_spec(),
        forall|r: int, c: int| 0 <= r < b.rows && r != b.cursor.row && 0 <= c < b.cols ==> #[trigger] b.cleared(Selection::Line).at(r, c) == b.at(r, c),
{
    assert forall|c: int| 0 <= c < b.cols implies #[trigger] b.cleared(Selection::Line).at(b.cursor.row as int, c) == T::blank_spec() by {
        lemma_row_bounds(b.cursor.row as int, c, b.rows as int, b.cols as int);
    }
    assert forall|r: int, c: int| 0 <= r < b.rows && r != b.cursor.row && 0 <= c < b.cols implies #[trigger] b.cleared(Selection::Line).at(r, c) == b.at(r, c) by {
        lemma_row_bounds(r, c, b.rows as int, b.cols as int);
        lemma_row_bounds(b.cursor.row as int, 0, b.rows as int, b.cols as int);
        let cr = b.cursor.row as int;
        let cols = b.cols as int;
        if r < cr {
            assert((r + 1) * cols <= cr * cols) by (nonlinear_arith)
                requires
                    r + 1 <= cr,
                    cols >= 1,
            ;
        } else {
            assert((cr + 1) * cols <= r * cols) by (nonlinear_arith)
                requires
                    cr + 1 <= r,
                    cols >= 1,
            ;
        }
    }
}

/// At the pending-wrap column with wrapping on, the next advance goes to column 0 of the next
/// row, or scrolls the region when the cursor is on the last row.
pub proof fn wrap_at_end<T: Blank>(b: BufferView<T>)
    requires
        b.wf(),
        b.cursor.col == b.cols,
    ensures
        b.advanced(true).cursor.col == 0,
        b.cursor.row < b.rows - 1 ==> b.advanced(true).cursor.row == b.cursor.row + 1 && b.advanced(true).data == b.data,
        b.cursor.row == b.rows - 1 ==> b.advanced(true).cursor.row == b.cursor.row && b.advanced(true).data == b.shifted().data,
{
    assert(b.rows <= b.rows * b.cols) by (nonlinear_arith)
        requires
            b.cols >= 1,
    ;
}

} // verus!
