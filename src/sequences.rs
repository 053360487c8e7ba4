use vstd::prelude::*;
use crate::sgr_list::{sgr_items, sgr_slice, SgrList};

verus! {

/// A control sequence (`ESC [ ...`). `L` holds the SGR attribute list: an `SgrList` in
/// running code, a `Seq<u8>` in specifications.
#[derive(Debug, Clone, PartialEq)]
pub enum CsiSeq<L> {
    CursorPos(u32, u32),
    CursorUp(u32),
    CursorDown(u32),
    CursorForward(u32),
    CursorBackward(u32),
    LinePositionAbsolute(u32),
    CursorCharacterAbsolute(u32),
    CursorStyle(u8),
    CursorSave,
    CursorRestore,
    DecPrivateModeSet(u32),
    DecPrivateModeReset(u32),
    EraseDisplay(u8),
    EraseCharacters(u32),
    EraseInLine(u32),
    SetGraphicsMode(L),
    SetMode(u8),
    ResetMode(u8),
    SetNewLineMode,
    SetLineFeedMode,
    SetTopAndBottom(u32, u32),
}

pub type CSISequence = CsiSeq<SgrList>;

/// An operating system command (`ESC ] ... BEL`).
#[derive(Debug, Clone, Copy, PartialEq, Eq, Structural)]
pub enum OSCSequence {
    ResetCursorColor,
}

/// A sequence of one or two characters after `ESC`.
#[derive(Debug, Clone, Copy, PartialEq, Eq, Structural)]
pub enum ESCSequence {
    Escape,
    SetAlternateKeypad,
    SetNumericKeypad,
    SetSingleShift2,
    SetSingleShift3,
    SetUKG0,
    SetUKG1,
    SetUSG0,
    SetUSG1,
    SetG0SpecialChars,
    SetG1SpecialChars,
    SetG0AlternateChar,
    SetG1AlternateChar,
    SetG0AltAndSpecialGraph,
    SetG1AltAndSpecialGraph,
    ReverseIndex,
}

#[derive(Debug, Clone, PartialEq)]
pub enum AnsiSeq<L> {
    CSI(CsiSeq<L>),
    OSC(OSCSequence),
    ESC(ESCSequence),
}

pub type AnsiSequence = AnsiSeq<SgrList>;

impl View for CsiSeq<SgrList> {
    type V = CsiSeq<Seq<u8>>;

    open spec fn view(&self) -> CsiSeq<Seq<u8>> {
        match *self {
            CsiSeq::CursorPos(a, b) => CsiSeq::CursorPos(a, b),
            CsiSeq::CursorUp(n) => CsiSeq::CursorUp(n),
            CsiSeq::CursorDown(n) => CsiSeq::CursorDown(n),
            CsiSeq::CursorForward(n) => CsiSeq::CursorForward(n),
            CsiSeq::CursorBackward(n) => CsiSeq::CursorBackward(n),
            CsiSeq::LinePositionAbsolute(n) => CsiSeq::LinePositionAbsolute(n),
            CsiSeq::CursorCharacterAbsolute(n) => CsiSeq::CursorCharacterAbsolute(n),
            CsiSeq::CursorStyle(n) => CsiSeq::CursorStyle(n),
            CsiSeq::CursorSave => CsiSeq::CursorSave,
            CsiSeq::CursorRestore => CsiSeq::CursorRestore,
            CsiSeq::DecPrivateModeSet(n) => CsiSeq::DecPrivateModeSet(n),
            CsiSeq::DecPrivateModeReset(n) => CsiSeq::DecPrivateModeReset(n),
            CsiSeq::EraseDisplay(n) => CsiSeq::EraseDisplay(n),
            CsiSeq::EraseCharacters(n) => CsiSeq::EraseCharacters(n),
            CsiSeq::EraseInLine(n) => CsiSeq::EraseInLine(n),
            CsiSeq::SetGraphicsMode(v) => CsiSeq::SetGraphicsMode(sgr_items(v)),
            CsiSeq::SetMode(n) => CsiSeq::SetMode(n),
            CsiSeq::ResetMode(n) => CsiSeq::ResetMode(n),
            CsiSeq::SetNewLineMode => CsiSeq::SetNewLineMode,
            CsiSeq::SetLineFeedMode => CsiSeq::SetLineFeedMode,
            CsiSeq::SetTopAndBottom(a, b) => CsiSeq::SetTopAndBottom(a, b),
        }
    }
}

impl View for AnsiSeq<SgrList> {
    type V = AnsiSeq<Seq<u8>>;

    open spec fn view(&self) -> AnsiSeq<Seq<u8>> {
        match *self {
            AnsiSeq::CSI(c) => AnsiSeq::CSI(c@),
            AnsiSeq::OSC(o) => AnsiSeq::OSC(o),
            AnsiSeq::ESC(e) => AnsiSeq::ESC(e),
        }
    }
}

pub open spec fn digit_char(d: nat) -> char {
    if d == 0 {
        '0'
    } else if d == 1 {
        '1'
    } else if d == 2 {
        '2'
    } else if d == 3 {
        '3'
    } else if d == 4 {
        '4'
    } else if d == 5 {
        '5'
    } else if d == 6 {
        '6'
    } else if d == 7 {
        '7'
    } else if d == 8 {
        '8'
    } else {
        '9'
    }
}

/// Decimal digits of `n`, most significant first, without leading zeros.
pub open spec fn decimal(n: nat) -> Seq<char>
    decreases n,
{
    if n < 10 {
        seq![digit_char(n)]
    } else {
        decimal(n / 10).push(digit_char(n % 10))
    }
}

/// Numbers written in decimal and separated by `;`.
pub open spec fn joined(v: Seq<nat>) -> Seq<char>
    decreases v.len(),
{
    if v.len() == 0 {
        Seq::empty()
    } else if v.len() == 1 {
        decimal(v[0])
    } else {
        joined(v.drop_last()).push(';') + decimal(v.last())
    }
}

/// The private marker, the parameters and the final characters of a control sequence.
pub open spec fn csi_parts(c: CsiSeq<Seq<u8>>) -> (Seq<char>, Seq<nat>, Seq<char>) {
    match c {
        CsiSeq::CursorPos(a, b) => (seq![], seq![a as nat, b as nat], seq!['H']),
        CsiSeq::CursorUp(n) => (seq![], seq![n as nat], seq!['A']),
        CsiSeq::CursorDown(n) => (seq![], seq![n as nat], seq!['B']),
        CsiSeq::CursorForward(n) => (seq![], seq![n as nat], seq!['C']),
        CsiSeq::CursorBackward(n) => (seq![], seq![n as nat], seq!['D']),
        CsiSeq::LinePositionAbsolute(n) => (seq![], seq![n as nat], seq!['d']),
        CsiSeq::CursorCharacterAbsolute(n) => (seq![], seq![n as nat], seq!['G']),
        CsiSeq::CursorStyle(n) => (seq![], seq![n as nat], seq![' ', 'q']),
        CsiSeq::CursorSave => (seq![], seq![], seq!['s']),
        CsiSeq::CursorRestore => (seq![], seq![], seq!['u']),
        CsiSeq::DecPrivateModeSet(n) => (seq!['?'], seq![n as nat], seq!['h']),
        CsiSeq::DecPrivateModeReset(n) => (seq!['?'], seq![n as nat], seq!['l']),
        CsiSeq::EraseDisplay(n) => (seq![], if n == 0 { seq![] } else { seq![n as nat] }, seq!['J']),
        CsiSeq::EraseCharacters(n) => (seq![], seq![n as nat], seq!['X']),
        CsiSeq::EraseInLine(n) => (seq![], if n == 0 { seq![] } else { seq![n as nat] }, seq!['K']),
        CsiSeq::SetGraphicsMode(v) => (seq![], Seq::new(v.len(), |i: int| v[i] as nat), seq!['m']),
        CsiSeq::SetMode(n) => (seq!['='], seq![n as nat], seq!['h']),
        CsiSeq::ResetMode(n) => (seq!['='], seq![n as nat], seq!['l']),
        CsiSeq::SetNewLineMode => (seq![], seq![20], seq!['h']),
        CsiSeq::SetLineFeedMode => (seq![], seq![20], seq!['l']),
        CsiSeq::SetTopAndBottom(a, b) => (seq![], seq![a as nat, b as nat], seq!['r']),
    }
}

pub open spec fn esc_tail(e: ESCSequence) -> Seq<char> {
    match e {
        ESCSequence::Escape => seq!['\x1b'],
        ESCSequence::SetAlternateKeypad => seq!['='],
        ESCSequence::SetNumericKeypad => seq!['>'],
        ESCSequence::SetSingleShift2 => seq!['N'],
        ESCSequence::SetSingleShift3 => seq!['O'],
        ESCSequence::SetUKG0 => seq!['(', 'A'],
        ESCSequence::SetUKG1 => seq![')', 'A'],
        ESCSequence::SetUSG0 => seq!['(', 'B'],
        ESCSequence::SetUSG1 => seq![')', 'B'],
        ESCSequence::SetG0SpecialChars => seq!['(', '0'],
        ESCSequence::SetG1SpecialChars => seq![')', '0'],
        ESCSequence::SetG0AlternateChar => seq!['(', '1'],
        ESCSequence::SetG1AlternateChar => seq![')', '1'],
        ESCSequence::SetG0AltAndSpecialGraph => seq!['(', '2'],
        ESCSequence::SetG1AltAndSpecialGraph => seq![')', '2'],
        ESCSequence::ReverseIndex => seq!['M'],
    }
}

/// The canonical wire form of a sequence.
pub open spec fn rendered(a: AnsiSeq<Seq<u8>>) -> Seq<char> {
    match a {
        AnsiSeq::CSI(c) => {
            let (marker, nums, fin) = csi_parts(c);
            seq!['\x1b', '['] + marker + joined(nums) + fin
        },
        AnsiSeq::OSC(_) => seq!['\x1b', ']', '1', '1', '2', '\x07'],
        AnsiSeq::ESC(e) => seq!['\x1b'] + esc_tail(e),
    }
}

fn digit(d: u32) -> (r: char)
    requires
        d < 10,
    ensures
        r == digit_char(d as nat),
{
    match d {
        0 => '0',
        1 => '1',
        2 => '2',
        3 => '3',
        4 => '4',
        5 => '5',
        6 => '6',
        7 => '7',
        8 => '8',
        _ => '9',
    }
}

fn push_decimal(n: u32, out: &mut Vec<char>)
    ensures
        final(out)@ == old(out)@ + decimal(n as nat),
    decreases n,
{
    if n >= 10 {
        push_decimal(n / 10, out);
    }
    out.push(digit(n % 10));
    assert(final(out)@ =~= old(out)@ + decimal(n as nat));
}

fn push_chars(src: &[char], out: &mut Vec<char>)
    ensures
        final(out)@ == old(out)@ + src@,
{
    let mut i: usize = 0;
    while i < src.len()
        invariant
            i <= src@.len(),
            out@ == old(out)@ + src@.subrange(0, i as int),
        decreases src@.len() - i,
    {
        out.push(src[i]);
        i = i + 1;
        assert(out@ =~= old(out)@ + src@.subrange(0, i as int));
    }
    assert(src@.subrange(0, src@.len() as int) =~= src@);
}

fn push_joined(nums: &[u32], out: &mut Vec<char>)
    ensures
        final(out)@ == old(out)@ + joined(Seq::new(nums@.len(), |i: int| nums@[i] as nat)),
{
    let ghost whole = Seq::new(nums@.len(), |i: int| nums@[i] as nat);
    let mut i: usize = 0;
    while i < nums.len()
        invariant
            i <= nums@.len(),
            whole == Seq::new(nums@.len(), |k: int| nums@[k] as nat),
            out@ == old(out)@ + joined(whole.take(i as int)),
        decreases nums@.len() - i,
    {
        let ghost before = out@;
        if i > 0 {
            out.push(';');
        }
        push_decimal(nums[i], out);
        proof {
            let t = whole.take(i + 1);
            assert(t.drop_last() =~= whole.take(i as int));
            if i == 0 {
                assert(joined(whole.take(0)) =~= Seq::<char>::empty());
                assert(out@ =~= old(out)@ + joined(t));
            } else {
                assert(out@ =~= old(out)@ + joined(t));
            }
        }
        i = i + 1;
    }
    assert(whole.take(nums@.len() as int) =~= whole);
}

fn csi_parts_of(c: &CSISequence) -> (r: (Vec<char>, Vec<u32>, Vec<char>))
    ensures
        ({
            let (m, n, f) = csi_parts(c@);
            r.0@ == m && Seq::new(r.1@.len(), |i: int| r.1@[i] as nat) == n && r.2@ == f
        }),
{
    let (m, n, f): (Vec<char>, Vec<u32>, Vec<char>) = match c {
        CsiSeq::CursorPos(a, b) => (vec![], vec![*a, *b], vec!['H']),
        CsiSeq::CursorUp(n) => (vec![], vec![*n], vec!['A']),
        CsiSeq::CursorDown(n) => (vec![], vec![*n], vec!['B']),
        CsiSeq::CursorForward(n) => (vec![], vec![*n], vec!['C']),
        CsiSeq::CursorBackward(n) => (vec![], vec![*n], vec!['D']),
        CsiSeq::LinePositionAbsolute(n) => (vec![], vec![*n], vec!['d']),
        CsiSeq::CursorCharacterAbsolute(n) => (vec![], vec![*n], vec!['G']),
        CsiSeq::CursorStyle(n) => (vec![], vec![*n as u32], vec![' ', 'q']),
        CsiSeq::CursorSave => (vec![], vec![], vec!['s']),
        CsiSeq::CursorRestore => (vec![], vec![], vec!['u']),
        CsiSeq::DecPrivateModeSet(n) => (vec!['?'], vec![*n], vec!['h']),
        CsiSeq::DecPrivateModeReset(n) => (vec!['?'], vec![*n], vec!['l']),
        CsiSeq::EraseDisplay(n) => (vec![], if *n == 0 { vec![] } else { vec![*n as u32] }, vec!['J']),
        CsiSeq::EraseCharacters(n) => (vec![], vec![*n], vec!['X']),
        CsiSeq::EraseInLine(n) => (vec![], if *n == 0 { vec![] } else { vec![*n] }, vec!['K']),
        CsiSeq::SetGraphicsMode(list) => {
            let v = sgr_slice(list);
            let mut nums: Vec<u32> = Vec::new();
            let mut i: usize = 0;
            while i < v.len()
                invariant
                    i <= v@.len(),
                    nums@.len() == i,
                    forall|k: int| 0 <= k < i ==> #[trigger] nums@[k] == v@[k] as u32,
                decreases v@.len() - i,
            {
                nums.push(v[i] as u32);
                i = i + 1;
            }
            (vec![], nums, vec!['m'])
        },
        CsiSeq::SetMode(n) => (vec!['='], vec![*n as u32], vec!['h']),
        CsiSeq::ResetMode(n) => (vec!['='], vec![*n as u32], vec!['l']),
        CsiSeq::SetNewLineMode => (vec![], vec![20], vec!['h']),
        CsiSeq::SetLineFeedMode => (vec![], vec![20], vec!['l']),
        CsiSeq::SetTopAndBottom(a, b) => (vec![], vec![*a, *b], vec!['r']),
    };
    let ghost parts = csi_parts(c@);
    assert(m@ =~= parts.0);
    assert(Seq::new(n@.len(), |i: int| n@[i] as nat) =~= parts.1);
    assert(f@ =~= parts.2);
    (m, n, f)
}

fn esc_tail_of(e: ESCSequence) -> (r: Vec<char>)
    ensures
        r@ == esc_tail(e),
{
    let v = match e {
        ESCSequence::Escape => vec!['\x1b'],
        ESCSequence::SetAlternateKeypad => vec!['='],
        ESCSequence::SetNumericKeypad => vec!['>'],
        ESCSequence::SetSingleShift2 => vec!['N'],
        ESCSequence::SetSingleShift3 => vec!['O'],
        ESCSequence::SetUKG0 => vec!['(', 'A'],
        ESCSequence::SetUKG1 => vec![')', 'A'],
        ESCSequence::SetUSG0 => vec!['(', 'B'],
        ESCSequence::SetUSG1 => vec![')', 'B'],
        ESCSequence::SetG0SpecialChars => vec!['(', '0'],
        ESCSequence::SetG1SpecialChars => vec![')', '0'],
        ESCSequence::SetG0AlternateChar => vec!['(', '1'],
        ESCSequence::SetG1AlternateChar => vec![')', '1'],
        ESCSequence::SetG0AltAndSpecialGraph => vec!['(', '2'],
        ESCSequence::SetG1AltAndSpecialGraph => vec![')', '2'],
        ESCSequence::ReverseIndex => vec!['M'],
    };
    assert(v@ =~= esc_tail(e));
    v
}

impl AnsiSeq<SgrList> {
    /// The canonical wire form of this sequence.
    pub fn render(&self) -> (r: Vec<char>)
        ensures
            r@ == rendered(self@),
    {
        let mut out: Vec<char> = Vec::new();
        out.push('\x1b');
        match self {
            AnsiSeq::CSI(c) => {
                out.push('[');
                let (m, n, f) = csi_parts_of(c);
                push_chars(m.as_slice(), &mut out);
                push_joined(n.as_slice(), &mut out);
                push_chars(f.as_slice(), &mut out);
                let ghost parts = csi_parts(c@);
                assert(out@ =~= seq!['\x1b', '['] + parts.0 + joined(parts.1) + parts.2);
            },
            AnsiSeq::OSC(_) => {
                out.push(']');
                out.push('1');
                out.push('1');
                out.push('2');
                out.push('\x07');
                assert(out@ =~= rendered(self@));
            },
            AnsiSeq::ESC(e) => {
                let t = esc_tail_of(*e);
                push_chars(t.as_slice(), &mut out);
                assert(out@ =~= rendered(self@));
            },
        }
        out
    }
}

} // verus!
