use vstd::prelude::*;
use crate::buffer::{blanked, fill_range, fitted, lemma_row_bounds, move_back, region_up, Blank};
use crate::cursor::Cursor;

verus! {

/// A range of cells to clear, each relative to the given cursor.
#[derive(Debug, Clone, Copy, PartialEq, Eq, Structural)]
pub enum Selection {
    Line(Cursor),
    FromStartOfLine(Cursor),
    ToEndOfLine(Cursor),
    ToEndOfDisplay(Cursor),
}

pub open spec fn selection_cursor(s: Selection) -> Cursor {
    match s {
        Selection::Line(c) => c,
        Selection::FromStartOfLine(c) => c,
        Selection::ToEndOfLine(c) => c,
        Selection::ToEndOfDisplay(c) => c,
    }
}

/// A plain `rows x cols` grid stored row by row.
#[derive(Debug)]
pub struct Grid<T> {
    pub rows: usize,
    pub cols: usize,
    pub data: Vec<T>,
}

impl<T: Blank> Grid<T> {
    pub open spec fn wf(&self) -> bool {
        &&& self.rows >= 1
        &&& self.cols >= 1
        &&& self.data@.len() == self.rows * self.cols
        &&& self.rows * self.cols <= usize::MAX
    }

    /// Positions `(from, to)` that a selection covers.
    pub open spec fn range_of(&self, s: Selection) -> (int, int) {
        let c = selection_cursor(s);
        let base = c.row * self.cols;
        let here = base + c.col;
        match s {
            Selection::Line(_) => (base, base + self.cols),
            Selection::FromStartOfLine(_) => (base, here),
            Selection::ToEndOfLine(_) => (here, base + self.cols),
            Selection::ToEndOfDisplay(_) => (here, self.data@.len() as int),
        }
    }

    pub fn new(rows: usize, cols: usize, data: Vec<T>) -> (r: Self)
        requires
            rows >= 1,
            cols >= 1,
            data@.len() == rows * cols,
        ensures
            r.wf(),
            r.rows == rows,
            r.cols == cols,
            r.data@ == data@,
    {
        // A vector's length fits in usize, and so then does rows * cols.
        let _len = data.len();
        Grid { rows, cols, data }
    }

    /// The grid cut into rows, top to bottom.
    pub fn iter_rows(&self) -> (r: Vec<Vec<T>>)
        requires
            self.wf(),
        ensures
            r@.len() == self.rows,
            forall|i: int| 0 <= i < self.rows ==> #[trigger] r@[i]@ == self.data@.subrange(i * self.cols, (i + 1) * self.cols),
    {
        let mut out: Vec<Vec<T>> = Vec::new();
        let mut i: usize = 0;
        let n = self.data.len();
        while i < self.rows
            invariant
                self.wf(),
                n == self.data@.len(),
                i <= self.rows,
                out@.len() == i,
                forall|k: int| 0 <= k < i ==> #[trigger] out@[k]@ == self.data@.subrange(k * self.cols, (k + 1) * self.cols),
            decreases self.rows - i,
        {
            proof {
                lemma_row_bounds(i as int, 0, self.rows as int, self.cols as int);
            }
            let start = i * self.cols;
            let mut row: Vec<T> = Vec::new();
            let mut j: usize = 0;
            while j < self.cols
                invariant
                    self.wf(),
                    start == i * self.cols,
                    start + self.cols <= self.data@.len(),
                    j <= self.cols,
                    row@ == self.data@.subrange(start as int, start + j),
                decreases self.cols - j,
            {
                row.push(self.data[start + j]);
                j = j + 1;
                assert(row@ =~= self.data@.subrange(start as int, start + j));
            }
            out.push(row);
            i = i + 1;
        }
        out
    }

    /// Removes the first row and appends a blank one, moving every line up by one.
    pub fn shift_row(&mut self)
        requires
            old(self).wf(),
        ensures
            final(self).wf(),
            final(self).rows == old(self).rows,
            final(self).cols == old(self).cols,
            final(self).data@ == region_up(old(self).data@, old(self).cols as int, 0, old(self).rows - 1),
    {
        let len = self.data.len();
        proof {
            lemma_row_bounds(self.rows - 1, 0, self.rows as int, self.cols as int);
        }
        move_back(&mut self.data, 0, len, self.cols);
        fill_range(&mut self.data, len - self.cols, len);
        assert(self.data@ =~= region_up(old(self).data@, self.cols as int, 0, self.rows - 1));
    }

    /// Blanks the selected cells; the cursor of the selection must lie on the grid.
    pub fn clear_selection(&mut self, selection: Selection)
        requires
            old(self).wf(),
            selection_cursor(selection).row < old(self).rows,
            selection_cursor(selection).col <= old(self).cols,
        ensures
            final(self).wf(),
            final(self).rows == old(self).rows,
            final(self).cols == old(self).cols,
            final(self).data@ == blanked(old(self).data@, old(self).range_of(selection).0, old(self).range_of(selection).1),
    {
        let cursor = match selection {
            Selection::Line(c) => c,
            Selection::FromStartOfLine(c) => c,
            Selection::ToEndOfLine(c) => c,
            Selection::ToEndOfDisplay(c) => c,
        };
        proof {
            lemma_row_bounds(cursor.row as int, cursor.col as int, self.rows as int, self.cols as int);
        }
        let base = cursor.row * self.cols;
        let here = base + cursor.col;
        let (from, to) = match selection {
            Selection::Line(_) => (base, base + self.cols),
            Selection::FromStartOfLine(_) => (base, here),
            Selection::ToEndOfLine(_) => (here, base + self.cols),
            Selection::ToEndOfDisplay(_) => (here, self.data.len()),
        };
        fill_range(&mut self.data, from, to);
    }

    /// Reshapes to `rows x cols`: when shrinking, rows are dropped from the top; the row-major
    /// data is then cut or padded with blanks.
    pub fn resize(&mut self, rows: usize, cols: usize)
        requires
            old(self).wf(),
            rows >= 1,
            cols >= 1,
            rows * cols <= usize::MAX,
        ensures
            final(self).wf(),
            final(self).rows == rows,
            final(self).cols == cols,
            final(self).data@ == fitted(
                if rows < old(self).rows {
                    old(self).data@.skip((old(self).rows - rows) * old(self).cols)
                } else {
                    old(self).data@
                },
                (rows * cols) as nat,
            ),
    {
        let ghost old_data = self.data@;
        let len = self.data.len();
        let start: usize = if rows < self.rows {
            proof {
                assert((self.rows - rows) * self.cols <= self.rows * self.cols) by (nonlinear_arith)
                    requires
                        rows < self.rows,
                        rows >= 1,
                ;
            }
            (self.rows - rows) * self.cols
        } else {
            0
        };
        let avail = len - start;
        let new_len = rows * cols;
        let mut kept: Vec<T> = Vec::new();
        let mut i: usize = 0;
        while i < new_len
            invariant
                self.data@ == old_data,
                len == old_data.len(),
                start + avail == len,
                i <= new_len,
                kept@.len() == i,
                forall|j: int| 0 <= j < i ==> #[trigger] kept@[j] == (if j < avail { old_data[start + j] } else { T::blank_spec() }),
            decreases new_len - i,
        {
            if i < avail {
                kept.push(self.data[start + i]);
            } else {
                kept.push(T::blank());
            }
            i = i + 1;
        }
        let ghost skipped = if rows < self.rows { old_data.skip(start as int) } else { old_data };
        assert(kept@ =~= fitted(skipped, (rows * cols) as nat));
        self.data = kept;
        self.rows = rows;
        self.cols = cols;
    }
}

} // verus!
