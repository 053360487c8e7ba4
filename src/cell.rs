use vstd::prelude::*;
use crate::buffer::Blank;
use crate::colors::TerminalColor;

verus! {

#[derive(Debug, Clone, Copy, PartialEq, Eq, Structural)]
pub enum FontWeight {
    Dim,
    Normal,
    Bold,
}

/// The graphics rendition attached to a cell.
#[derive(Debug, Clone, Copy, PartialEq, Eq, Structural)]
pub struct CellStyle {
    pub foreground: TerminalColor,
    pub background: TerminalColor,
    pub reversed: bool,
    pub weight: FontWeight,
    pub italic: bool,
    pub underline: bool,
    pub strikethrough: bool,
}

/// One printable position of the grid.
#[derive(Debug, Clone, Copy, PartialEq, Eq, Structural)]
pub struct Cell {
    pub content: char,
    pub style: CellStyle,
}

/// One SGR attribute, as a single parameter value denotes it.
#[derive(Debug, Clone, Copy, PartialEq, Eq, Structural)]
pub enum Graphics {
    Reset,
    Bold,
    Dim,
    Italic,
    Underline,
    ReverseVideo,
    Strikethrough,
    SetFont(u8),
    NotUnderlined,
    NotReversed,
    SetForeground(TerminalColor),
    SetBackground(TerminalColor),
}

pub open spec fn default_style() -> CellStyle {
    CellStyle {
        foreground: TerminalColor::Default,
        background: TerminalColor::Default,
        reversed: false,
        weight: FontWeight::Normal,
        italic: false,
        underline: false,
        strikethrough: false,
    }
}

pub open spec fn blank_cell() -> Cell {
    Cell { content: ' ', style: default_style() }
}

/// The named colour that SGR codes `base..=base+7` select, by offset.
pub open spec fn named_color(k: int) -> TerminalColor {
    if k == 0 {
        TerminalColor::Black
    } else if k == 1 {
        TerminalColor::Red
    } else if k == 2 {
        TerminalColor::Green
    } else if k == 3 {
        TerminalColor::Yellow
    } else if k == 4 {
        TerminalColor::Blue
    } else if k == 5 {
        TerminalColor::Magenta
    } else if k == 6 {
        TerminalColor::Cyan
    } else {
        TerminalColor::White
    }
}

/// The attribute a single SGR value denotes, if it is one that is recognised.
pub open spec fn graphics_of(v: u8) -> Option<Graphics> {
    if v == 0 {
        Some(Graphics::Reset)
    } else if v == 1 {
        Some(Graphics::Bold)
    } else if v == 2 {
        Some(Graphics::Dim)
    } else if v == 3 {
        Some(Graphics::Italic)
    } else if v == 4 {
        Some(Graphics::Underline)
    } else if v == 7 {
        Some(Graphics::ReverseVideo)
    } else if v == 9 {
        Some(Graphics::Strikethrough)
    } else if 10 <= v <= 19 {
        Some(Graphics::SetFont(v))
    } else if v == 24 {
        Some(Graphics::NotUnderlined)
    } else if v == 27 {
        Some(Graphics::NotReversed)
    } else if 30 <= v <= 37 {
        Some(Graphics::SetForeground(named_color(v - 30)))
    } else if v == 39 {
        Some(Graphics::SetForeground(TerminalColor::Default))
    } else if 40 <= v <= 47 {
        Some(Graphics::SetBackground(named_color(v - 40)))
    } else if v == 49 {
        Some(Graphics::SetBackground(TerminalColor::Default))
    } else if 90 <= v <= 97 {
        Some(Graphics::SetForeground(named_color(v - 90)))
    } else if 100 <= v <= 107 {
        Some(Graphics::SetBackground(named_color(v - 100)))
    } else {
        None
    }
}

/// The style after one attribute has been applied.
pub open spec fn apply_graphics(s: CellStyle, g: Graphics) -> CellStyle {
    match g {
        Graphics::Reset => default_style(),
        Graphics::Bold => CellStyle { weight: FontWeight::Bold, ..s },
        Graphics::Dim => CellStyle { weight: FontWeight::Dim, ..s },
        Graphics::Italic => CellStyle { italic: true, ..s },
        Graphics::Underline => CellStyle { underline: true, ..s },
        Graphics::ReverseVideo => CellStyle { reversed: true, ..s },
        Graphics::Strikethrough => CellStyle { strikethrough: true, ..s },
        Graphics::SetFont(_) => s,
        Graphics::NotUnderlined => CellStyle { underline: false, ..s },
        Graphics::NotReversed => CellStyle { reversed: false, ..s },
        Graphics::SetForeground(c) => CellStyle { foreground: c, ..s },
        Graphics::SetBackground(c) => CellStyle { background: c, ..s },
    }
}

/// Interprets the SGR list `a` from position `i` on, left to right; `38`/`48` followed by
/// `2;r;g;b` or `5;n` take a colour, unknown values are skipped.
pub open spec fn modify_from(s: CellStyle, a: Seq<u8>, i: int) -> CellStyle
    decreases a.len() - i,
{
    if i < 0 || i >= a.len() {
        s
    } else if (a[i] == 38 || a[i] == 48) && i + 4 < a.len() && a[i + 1] == 2 {
        let c = TerminalColor::TwentyFourBit(a[i + 2], a[i + 3], a[i + 4]);
        let s2 = if a[i] == 38 { CellStyle { foreground: c, ..s } } else { CellStyle { background: c, ..s } };
        modify_from(s2, a, i + 5)
    } else if (a[i] == 38 || a[i] == 48) && i + 2 < a.len() && a[i + 1] == 5 {
        let c = TerminalColor::EightBit(a[i + 2]);
        let s2 = if a[i] == 38 { CellStyle { foreground: c, ..s } } else { CellStyle { background: c, ..s } };
        modify_from(s2, a, i + 3)
    } else {
        let s2 = match graphics_of(a[i]) {
            Some(g) => apply_graphics(s, g),
            None => s,
        };
        modify_from(s2, a, i + 1)
    }
}

/// The style after an SGR list; the empty list resets.
pub open spec fn modified(s: CellStyle, a: Seq<u8>) -> CellStyle {
    if a.len() == 0 {
        default_style()
    } else {
        modify_from(s, a, 0)
    }
}

impl Graphics {
    pub fn parse_ansi(value: u8) -> (r: Option<Graphics>)
        ensures
            r == graphics_of(value),
    {
        if value == 0 {
            Some(Graphics::Reset)
        } else if value == 1 {
            Some(Graphics::Bold)
        } else if value == 2 {
            Some(Graphics::Dim)
        } else if value == 3 {
            Some(Graphics::Italic)
        } else if value == 4 {
            Some(Graphics::Underline)
        } else if value == 7 {
            Some(Graphics::ReverseVideo)
        } else if value == 9 {
            Some(Graphics::Strikethrough)
        } else if 10 <= value && value <= 19 {
            Some(Graphics::SetFont(value))
        } else if value == 24 {
            Some(Graphics::NotUnderlined)
        } else if value == 27 {
            Some(Graphics::NotReversed)
        } else if 30 <= value && value <= 37 {
            Some(Graphics::SetForeground(named(value - 30)))
        } else if value == 39 {
            Some(Graphics::SetForeground(TerminalColor::Default))
        } else if 40 <= value && value <= 47 {
            Some(Graphics::SetBackground(named(value - 40)))
        } else if value == 49 {
            Some(Graphics::SetBackground(TerminalColor::Default))
        } else if 90 <= value && value <= 97 {
            Some(Graphics::SetForeground(named(value - 90)))
        } else if 100 <= value && value <= 107 {
            Some(Graphics::SetBackground(named(value - 100)))
        } else {
            None
        }
    }
}

fn named(k: u8) -> (r: TerminalColor)
    ensures
        r == named_color(k as int),
{
    match k {
        0 => TerminalColor::Black,
        1 => TerminalColor::Red,
        2 => TerminalColor::Green,
        3 => TerminalColor::Yellow,
        4 => TerminalColor::Blue,
        5 => TerminalColor::Magenta,
        6 => TerminalColor::Cyan,
        _ => TerminalColor::White,
    }
}

impl CellStyle {
    pub fn default() -> (r: CellStyle)
        ensures
            r == default_style(),
    {
        CellStyle {
            foreground: TerminalColor::Default,
            background: TerminalColor::Default,
            reversed: false,
            weight: FontWeight::Normal,
            italic: false,
            underline: false,
            strikethrough: false,
        }
    }

    /// The colour to draw glyphs in: the background when reversed.
    pub fn foreground_color(self) -> (r: TerminalColor)
        ensures
            r == (if self.reversed { self.background } else { self.foreground }),
    {
        if self.reversed {
            self.background
        } else {
            self.foreground
        }
    }

    /// The colour to fill the cell with: the foreground when reversed.
    pub fn background_color(self) -> (r: TerminalColor)
        ensures
            r == (if self.reversed { self.foreground } else { self.background }),
    {
        if self.reversed {
            self.foreground
        } else {
            self.background
        }
    }

    pub fn modify(&mut self, attributes: &[u8])
        ensures
            *final(self) == modified(*old(self), attributes@),
    {
        if attributes.len() == 0 {
            self.parse_attribute(Graphics::Reset);
        } else {
            self.modify_recursive(attributes);
        }
    }

    fn modify_recursive(&mut self, attributes: &[u8])
        ensures
            *final(self) == modify_from(*old(self), attributes@, 0),
    {
        let a = attributes;
        let n = a.len();
        let mut i: usize = 0;
        while i < n
            invariant
                n == a@.len(),
                i <= n,
                modify_from(*self, a@, i as int) == modify_from(*old(self), a@, 0),
            decreases n - i,
        {
            let v = a[i];
            if (v == 38 || v == 48) && n - i > 4 && a[i + 1] == 2 {
                let c = TerminalColor::TwentyFourBit(a[i + 2], a[i + 3], a[i + 4]);
                if v == 38 {
                    self.parse_attribute(Graphics::SetForeground(c));
                } else {
                    self.parse_attribute(Graphics::SetBackground(c));
                }
                i = i + 5;
            } else if (v == 38 || v == 48) && n - i > 2 && a[i + 1] == 5 {
                let c = TerminalColor::EightBit(a[i + 2]);
                if v == 38 {
                    self.parse_attribute(Graphics::SetForeground(c));
                } else {
                    self.parse_attribute(Graphics::SetBackground(c));
                }
                i = i + 3;
            } else {
                match Graphics::parse_ansi(v) {
                    Some(g) => self.parse_attribute(g),
                    None => {},
                }
                i = i + 1;
            }
        }
    }

    fn parse_attribute(&mut self, attr: Graphics)
        ensures
            *final(self) == apply_graphics(*old(self), attr),
    {
        match attr {
            Graphics::Reset => *self = Self::default(),
            Graphics::Bold => self.weight = FontWeight::Bold,
            Graphics::Dim => self.weight = FontWeight::Dim,
            Graphics::Italic => self.italic = true,
            Graphics::Underline => self.underline = true,
            Graphics::ReverseVideo => self.reversed = true,
            Graphics::Strikethrough => self.strikethrough = true,
            Graphics::SetFont(_) => {},
            Graphics::NotUnderlined => self.underline = false,
            Graphics::NotReversed => self.reversed = false,
            Graphics::SetForeground(color) => self.foreground = color,
            Graphics::SetBackground(color) => self.background = color,
        }
    }
}

/// An empty SGR list resets any style to the default.
pub proof fn empty_list_resets(s: CellStyle)
    ensures
        modified(s, Seq::<u8>::empty()) == default_style(),
{
}

impl Cell {
    /// A space in the default style.
    pub fn default() -> (r: Cell)
        ensures
            r == blank_cell(),
    {
        Cell { content: ' ', style: CellStyle::default() }
    }
}

impl Blank for Cell {
    open spec fn blank_spec() -> Cell {
        blank_cell()
    }

    fn blank() -> (r: Cell) {
        Cell::default()
    }
}

} // verus!
