use vstd::prelude::*;

verus! {

/// A colour as carried by a cell: the terminal default, one of the eight named colours,
/// an index into the 256-colour palette, or a 24-bit value.
#[derive(Debug, Clone, Copy, PartialEq, Eq, Structural)]
pub enum TerminalColor {
    Black,
    Red,
    Green,
    Yellow,
    Blue,
    Magenta,
    Cyan,
    White,
    Default,
    EightBit(u8),
    TwentyFourBit(u8, u8, u8),
}

impl TerminalColor {
    pub fn default() -> (r: TerminalColor)
        ensures
            r == TerminalColor::Default,
    {
        TerminalColor::Default
    }
}

/// One step of the 6x6x6 colour cube: 0 stays 0, k > 0 becomes 55 + 40k.
pub open spec fn cube_level(n: int) -> int {
    if n == 0 {
        0
    } else {
        55 + 40 * n
    }
}

pub fn scale_to_256(n: u8) -> (r: u8)
    requires
        n <= 5,
    ensures
        r == cube_level(n as int),
{
    if n == 0 {
        0
    } else {
        n * 40 + 55
    }
}

/// The red, green and blue components of palette entry `n` for `n >= 16`.
pub open spec fn palette_rgb(n: int) -> (int, int, int) {
    if n < 232 {
        let k = n - 16;
        (cube_level(k / 36), cube_level((k / 6) % 6), cube_level(k % 6))
    } else {
        let gray = 8 + 10 * (n - 232);
        (gray, gray, gray)
    }
}

/// The 24-bit value of a palette index. Indices below 16 name the sixteen themed colours,
/// whose values belong to the front-end, and give `None`.
pub fn eight_bit_rgb(n: u8) -> (r: Option<(u8, u8, u8)>)
    ensures
        n < 16 ==> r is None,
        n >= 16 ==> r is Some && ({
            let (red, green, blue) = r->0;
            (red as int, green as int, blue as int) == palette_rgb(n as int)
        }),
{
    if n < 16 {
        None
    } else if n < 232 {
        let k = n - 16;
        let red = scale_to_256(k / 36);
        let green = scale_to_256((k / 6) % 6);
        let blue = scale_to_256(k % 6);
        Some((red, green, blue))
    } else {
        let gray = 8 + 10 * (n - 232);
        Some((gray, gray, gray))
    }
}

} // verus!
