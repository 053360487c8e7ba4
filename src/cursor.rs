use vstd::prelude::*;

verus! {

/// Shape of the cursor as drawn by a front-end.
#[derive(Debug, Copy, Clone, PartialEq, Eq, Structural)]
pub enum CursorStyle {
    BlinkingBlock,
    SteadyBlock,
    BlinkingUnderline,
    SteadyUnderline,
    BlinkingBar,
    SteadyBar,
}

impl CursorStyle {
    /// The style a fresh cursor has.
    pub fn default() -> (r: CursorStyle)
        ensures
            r == CursorStyle::SteadyBlock,
    {
        CursorStyle::SteadyBlock
    }
}

/// Maps the parameter of `CSI n SP q` to a cursor style; unknown values give the default style.
pub open spec fn style_for_code(code: u8) -> CursorStyle {
    if code <= 1 {
        CursorStyle::BlinkingBlock
    } else if code == 2 {
        CursorStyle::SteadyBlock
    } else if code == 3 {
        CursorStyle::BlinkingUnderline
    } else if code == 4 {
        CursorStyle::SteadyUnderline
    } else if code == 5 {
        CursorStyle::BlinkingBar
    } else if code == 6 {
        CursorStyle::SteadyBar
    } else {
        CursorStyle::SteadyBlock
    }
}

/// A zero-based grid position together with the cursor's shape.
#[derive(Debug, Copy, Clone, PartialEq, Eq, Structural)]
pub struct Cursor {
    pub col: usize,
    pub row: usize,
    pub style: CursorStyle,
}

/// A relative cursor motion by a number of cells.
pub enum Direction {
    Up(usize),
    Down(usize),
    Left(usize),
    Right(usize),
}

/// `x - steps`, floored at zero, then capped at `max`.
pub open spec fn back_clamped(x: usize, steps: usize, max: usize) -> usize {
    let v: int = if x >= steps { x - steps } else { 0 };
    if v > max { max } else { v as usize }
}

/// `x + steps`, capped at `max`.
pub open spec fn forward_clamped(x: usize, steps: usize, max: usize) -> usize {
    if x + steps > max { max } else { (x + steps) as usize }
}

impl Cursor {
    /// The cursor at the top-left corner with the default style.
    pub fn default() -> (r: Cursor)
        ensures
            r.row == 0,
            r.col == 0,
            r.style == CursorStyle::SteadyBlock,
    {
        Cursor { col: 0, row: 0, style: CursorStyle::default() }
    }

    pub fn set_position(&mut self, row: usize, col: usize)
        ensures
            *final(self) == (Cursor { row, col, ..*old(self) }),
    {
        self.row = row;
        self.col = col;
    }

    pub fn left(&mut self, steps: usize, max: usize)
        ensures
            *final(self) == (Cursor { col: back_clamped(old(self).col, steps, max), ..*old(self) }),
    {
        let v = self.col.saturating_sub(steps);
        self.col = if v > max { max } else { v };
    }

    pub fn right(&mut self, steps: usize, max: usize)
        ensures
            *final(self) == (Cursor { col: forward_clamped(old(self).col, steps, max), ..*old(self) }),
    {
        let v = self.col.saturating_add(steps);
        self.col = if v > max { max } else { v };
    }

    pub fn up(&mut self, steps: usize, max: usize)
        ensures
            *final(self) == (Cursor { row: back_clamped(old(self).row, steps, max), ..*old(self) }),
    {
        let v = self.row.saturating_sub(steps);
        self.row = if v > max { max } else { v };
    }

    pub fn down(&mut self, steps: usize, max: usize)
        ensures
            *final(self) == (Cursor { row: forward_clamped(old(self).row, steps, max), ..*old(self) }),
    {
        let v = self.row.saturating_add(steps);
        self.row = if v > max { max } else { v };
    }

    pub fn set_style(&mut self, style: u8)
        ensures
            *final(self) == (Cursor { style: style_for_code(style), ..*old(self) }),
    {
        self.style = if style <= 1 {
            CursorStyle::BlinkingBlock
        } else if style == 2 {
            CursorStyle::SteadyBlock
        } else if style == 3 {
            CursorStyle::BlinkingUnderline
        } else if style == 4 {
            CursorStyle::SteadyUnderline
        } else if style == 5 {
            CursorStyle::BlinkingBar
        } else if style == 6 {
            CursorStyle::SteadyBar
        } else {
            CursorStyle::default()
        };
    }
}

} // verus!
