use vstd::prelude::*;
use vstd::std_specs::iter::IteratorSpec;
use crate::sequences::{AnsiSeq, AnsiSequence, CsiSeq, CSISequence, ESCSequence, OSCSequence};
use crate::sgr_list::{sgr_items, sgr_new, sgr_push, SgrList, MAX_SGR};

verus! {

/// Parameter values are tracked up to this bound; anything larger is out of every range.
pub const PARAM_CAP: u64 = 0x1_0000_0000;

pub const U32_MAX: u64 = 0xffff_ffff;

pub open spec fn is_digit(c: char) -> bool {
    '0' <= c && c <= '9'
}

pub open spec fn digit_value(c: char) -> int {
    (c as u32) as int - 48
}

pub open spec fn param_char(c: char) -> bool {
    is_digit(c) || c == ';'
}

/// First position at or after `i` that is not a digit or `;`.
pub open spec fn param_end(s: Seq<char>, i: int) -> int
    decreases s.len() - i,
{
    if 0 <= i < s.len() && param_char(s[i]) {
        param_end(s, i + 1)
    } else {
        i
    }
}

/// The value after appending digit `ch` to `cur`, capped at `PARAM_CAP`.
pub open spec fn with_digit(cur: Option<u64>, ch: char) -> u64 {
    let v = match cur {
        Some(x) => x as int,
        None => 0,
    } * 10 + digit_value(ch);
    if v > PARAM_CAP {
        PARAM_CAP
    } else {
        v as u64
    }
}

/// Reading a run of digits and `;`: the fields finished so far and the one being read.
pub open spec fn fields_of(p: Seq<char>) -> (Seq<Option<u64>>, Option<u64>)
    decreases p.len(),
{
    if p.len() == 0 {
        (Seq::empty(), None)
    } else {
        let (done, cur) = fields_of(p.drop_last());
        if p.last() == ';' {
            (done.push(cur), None)
        } else {
            (done, Some(with_digit(cur, p.last())))
        }
    }
}

/// The `;`-separated parameters of a run; an empty field is `None`, an empty run has none.
pub open spec fn params_of(p: Seq<char>) -> Seq<Option<u64>> {
    if p.len() == 0 {
        Seq::empty()
    } else {
        fields_of(p).0.push(fields_of(p).1)
    }
}

/// Parameter `i`, or `d` where it is absent or empty.
pub open spec fn param_or(ps: Seq<Option<u64>>, i: int, d: u64) -> u64 {
    if 0 <= i < ps.len() && ps[i] is Some {
        ps[i]->0
    } else {
        d
    }
}

pub open spec fn all_bytes(ps: Seq<Option<u64>>) -> bool {
    forall|k: int| 0 <= k < ps.len() ==> #[trigger] ps[k] is Some && ps[k]->0 <= 255
}

/// The control sequence that a marker, parameters and final character stand for.
pub open spec fn csi_meaning(marker: Option<char>, space: bool, ps: Seq<Option<u64>>, fin: char) -> Option<CsiSeq<Seq<u8>>> {
    let one = ps.len() <= 1;
    if space {
        if marker is None && fin == 'q' && ps.len() == 1 && ps[0] is Some && ps[0]->0 <= 255 {
            Some(CsiSeq::CursorStyle(ps[0]->0 as u8))
        } else {
            None
        }
    } else if marker == Some('?') {
        if ps.len() == 1 && ps[0] is Some && ps[0]->0 <= U32_MAX {
            if fin == 'h' {
                Some(CsiSeq::DecPrivateModeSet(ps[0]->0 as u32))
            } else if fin == 'l' {
                Some(CsiSeq::DecPrivateModeReset(ps[0]->0 as u32))
            } else {
                None
            }
        } else {
            None
        }
    } else if marker == Some('=') {
        if ps.len() == 1 && ps[0] is Some && ps[0]->0 <= 255 {
            if fin == 'h' {
                Some(CsiSeq::SetMode(ps[0]->0 as u8))
            } else if fin == 'l' {
                Some(CsiSeq::ResetMode(ps[0]->0 as u8))
            } else {
                None
            }
        } else {
            None
        }
    } else if marker is Some {
        None
    } else if fin == 'H' || fin == 'f' {
        let r = param_or(ps, 0, 1);
        let c = param_or(ps, 1, 1);
        if ps.len() <= 2 && 1 <= r <= U32_MAX && 1 <= c <= U32_MAX {
            Some(CsiSeq::CursorPos(r as u32, c as u32))
        } else {
            None
        }
    } else if fin == 'A' || fin == 'B' || fin == 'C' || fin == 'D' || fin == 'X' {
        let n = param_or(ps, 0, 1);
        if one && n <= U32_MAX {
            let n = n as u32;
            Some(
                if fin == 'A' {
                    CsiSeq::CursorUp(n)
                } else if fin == 'B' {
                    CsiSeq::CursorDown(n)
                } else if fin == 'C' {
                    CsiSeq::CursorForward(n)
                } else if fin == 'D' {
                    CsiSeq::CursorBackward(n)
                } else {
                    CsiSeq::EraseCharacters(n)
                },
            )
        } else {
            None
        }
    } else if fin == 'd' || fin == 'G' {
        let n = param_or(ps, 0, 1);
        if one && 1 <= n <= U32_MAX {
            Some(
                if fin == 'd' {
                    CsiSeq::LinePositionAbsolute(n as u32)
                } else {
                    CsiSeq::CursorCharacterAbsolute(n as u32)
                },
            )
        } else {
            None
        }
    } else if fin == 's' || fin == 'u' {
        if ps.len() == 0 {
            Some(
                if fin == 's' {
                    CsiSeq::CursorSave
                } else {
                    CsiSeq::CursorRestore
                },
            )
        } else {
            None
        }
    } else if fin == 'J' || fin == 'K' {
        let n = param_or(ps, 0, 0);
        if one && n <= 2 {
            Some(
                if fin == 'J' {
                    CsiSeq::EraseDisplay(n as u8)
                } else {
                    CsiSeq::EraseInLine(n as u32)
                },
            )
        } else {
            None
        }
    } else if fin == 'm' {
        if ps.len() <= MAX_SGR && all_bytes(ps) {
            Some(CsiSeq::SetGraphicsMode(Seq::new(ps.len(), |k: int| ps[k]->0 as u8)))
        } else {
            None
        }
    } else if fin == 'r' {
        if ps.len() == 2 && ps[0] is Some && ps[1] is Some && 1 <= ps[0]->0 <= U32_MAX && 1 <= ps[1]->0
            <= U32_MAX {
            Some(CsiSeq::SetTopAndBottom(ps[0]->0 as u32, ps[1]->0 as u32))
        } else {
            None
        }
    } else if fin == 'h' || fin == 'l' {
        if ps.len() == 1 && ps[0] == Some(20u64) {
            Some(
                if fin == 'h' {
                    CsiSeq::SetNewLineMode
                } else {
                    CsiSeq::SetLineFeedMode
                },
            )
        } else {
            None
        }
    } else {
        None
    }
}

/// A control sequence whose `ESC [` starts at `i`, with the position after it.
pub open spec fn csi_at(s: Seq<char>, i: int) -> Option<(AnsiSeq<Seq<u8>>, int)> {
    let p = i + 2;
    let marker = if 0 <= p < s.len() && (s[p] == '?' || s[p] == '=') {
        Some(s[p])
    } else {
        None
    };
    let q = if marker is Some {
        p + 1
    } else {
        p
    };
    let e = param_end(s, q);
    let ps = params_of(s.subrange(q, e));
    if e < s.len() && s[e] == ' ' {
        if e + 1 < s.len() && s[e + 1] == 'q' {
            match csi_meaning(marker, true, ps, 'q') {
                Some(c) => Some((AnsiSeq::CSI(c), e + 2)),
                None => None,
            }
        } else {
            None
        }
    } else if e < s.len() {
        match csi_meaning(marker, false, ps, s[e]) {
            Some(c) => Some((AnsiSeq::CSI(c), e + 1)),
            None => None,
        }
    } else {
        None
    }
}

pub open spec fn esc_single(c: char) -> Option<ESCSequence> {
    if c == '=' {
        Some(ESCSequence::SetAlternateKeypad)
    } else if c == '>' {
        Some(ESCSequence::SetNumericKeypad)
    } else if c == 'N' {
        Some(ESCSequence::SetSingleShift2)
    } else if c == 'O' {
        Some(ESCSequence::SetSingleShift3)
    } else if c == 'M' {
        Some(ESCSequence::ReverseIndex)
    } else {
        None
    }
}

pub open spec fn esc_pair(g: char, c: char) -> Option<ESCSequence> {
    if g == '(' {
        if c == 'A' {
            Some(ESCSequence::SetUKG0)
        } else if c == 'B' {
            Some(ESCSequence::SetUSG0)
        } else if c == '0' {
            Some(ESCSequence::SetG0SpecialChars)
        } else if c == '1' {
            Some(ESCSequence::SetG0AlternateChar)
        } else if c == '2' {
            Some(ESCSequence::SetG0AltAndSpecialGraph)
        } else {
            None
        }
    } else if g == ')' {
        if c == 'A' {
            Some(ESCSequence::SetUKG1)
        } else if c == 'B' {
            Some(ESCSequence::SetUSG1)
        } else if c == '0' {
            Some(ESCSequence::SetG1SpecialChars)
        } else if c == '1' {
            Some(ESCSequence::SetG1AlternateChar)
        } else if c == '2' {
            Some(ESCSequence::SetG1AltAndSpecialGraph)
        } else {
            None
        }
    } else {
        None
    }
}

/// The sequence whose `ESC` is at `i`, with the position after it, if one is recognised there.
pub open spec fn parse_at(s: Seq<char>, i: int) -> Option<(AnsiSeq<Seq<u8>>, int)> {
    if !(0 <= i && i + 1 < s.len() && s[i] == '\x1b') {
        None
    } else if s[i + 1] == '[' {
        csi_at(s, i)
    } else if s[i + 1] == ']' {
        if i + 5 < s.len() && s[i + 2] == '1' && s[i + 3] == '1' && s[i + 4] == '2' && s[i + 5] == '\x07' {
            Some((AnsiSeq::OSC(OSCSequence::ResetCursorColor), i + 6))
        } else {
            None
        }
    } else if esc_single(s[i + 1]) is Some {
        Some((AnsiSeq::ESC(esc_single(s[i + 1])->0), i + 2))
    } else if i + 2 < s.len() && esc_pair(s[i + 1], s[i + 2]) is Some {
        Some((AnsiSeq::ESC(esc_pair(s[i + 1], s[i + 2])->0), i + 3))
    } else {
        None
    }
}

fn is_digit_exec(c: char) -> (r: bool)
    ensures
        r == is_digit(c),
{
    '0' <= c && c <= '9'
}

fn is_param_char(c: char) -> (r: bool)
    ensures
        r == param_char(c),
{
    is_digit_exec(c) || c == ';'
}

proof fn lemma_param_end_step(s: Seq<char>, i: int)
    requires
        0 <= i < s.len(),
        param_char(s[i]),
    ensures
        param_end(s, i) == param_end(s, i + 1),
{
}

/// Reads the digits and `;` from `q` on: the position after them and the parameters they hold.
fn read_params(s: &[char], q: usize) -> (r: (usize, Vec<Option<u64>>))
    requires
        q <= s@.len(),
    ensures
        r.0 == param_end(s@, q as int),
        r.1@ == params_of(s@.subrange(q as int, r.0 as int)),
{
    let mut done: Vec<Option<u64>> = Vec::new();
    let mut cur: Option<u64> = None;
    let mut i = q;
    while i < s.len() && is_param_char(s[i])
        invariant
            q <= i <= s@.len(),
            param_end(s@, q as int) == param_end(s@, i as int),
            (done@, cur) == fields_of(s@.subrange(q as int, i as int)),
            cur matches Some(v) ==> v <= PARAM_CAP,
        decreases s@.len() - i,
    {
        proof {
            lemma_param_end_step(s@, i as int);
            assert(s@.subrange(q as int, i + 1).drop_last() =~= s@.subrange(q as int, i as int));
        }
        let c = s[i];
        if c == ';' {
            done.push(cur);
            cur = None;
        } else {
            let base: u64 = match cur {
                Some(x) => x,
                None => 0,
            };
            let v = base * 10 + ((c as u32) - 48) as u64;
            cur = Some(if v > PARAM_CAP { PARAM_CAP } else { v });
        }
        i = i + 1;
    }
    if i == q {
        assert(s@.subrange(q as int, i as int).len() == 0);
        (i, Vec::new())
    } else {
        done.push(cur);
        (i, done)
    }
}

fn param_or_exec(ps: &Vec<Option<u64>>, i: usize, d: u64) -> (r: u64)
    ensures
        r == param_or(ps@, i as int, d),
{
    if i < ps.len() {
        match ps[i] {
            Some(v) => v,
            None => d,
        }
    } else {
        d
    }
}

fn sgr_values(ps: &Vec<Option<u64>>) -> (r: Option<SgrList>)
    ensures
        r is Some <==> (ps@.len() <= MAX_SGR && all_bytes(ps@)),
        r matches Some(v) ==> sgr_items(v) == Seq::new(ps@.len(), |k: int| ps@[k]->0 as u8),
{
    if ps.len() > MAX_SGR {
        return None;
    }
    let mut out = sgr_new();
    let mut i: usize = 0;
    while i < ps.len()
        invariant
            i <= ps@.len(),
            ps@.len() <= MAX_SGR,
            sgr_items(out).len() == i,
            forall|k: int| 0 <= k < i ==> #[trigger] ps@[k] is Some && ps@[k]->0 <= 255,
            forall|k: int| 0 <= k < i ==> #[trigger] sgr_items(out)[k] == ps@[k]->0 as u8,
        decreases ps@.len() - i,
    {
        match ps[i] {
            Some(v) => {
                if v > 255 {
                    return None;
                }
                sgr_push(&mut out, v as u8);
            },
            None => {
                return None;
            },
        }
        i = i + 1;
    }
    assert(sgr_items(out) =~= Seq::new(ps@.len(), |k: int| ps@[k]->0 as u8));
    Some(out)
}

fn csi_meaning_exec(marker: Option<char>, space: bool, ps: &Vec<Option<u64>>, fin: char) -> (r: Option<CSISequence>)
    ensures
        r is Some <==> csi_meaning(marker, space, ps@, fin) is Some,
        r matches Some(c) ==> c@ == csi_meaning(marker, space, ps@, fin)->0,
{
    let n = ps.len();
    let one = n <= 1;
    if space {
        if marker.is_none() && fin == 'q' && n == 1 {
            if let Some(v) = ps[0] {
                if v <= 255 {
                    return Some(CsiSeq::CursorStyle(v as u8));
                }
            }
        }
        None
    } else if marker == Some('?') || marker == Some('=') {
        if n != 1 {
            return None;
        }
        let v = match ps[0] {
            Some(v) => v,
            None => {
                return None;
            },
        };
        if marker == Some('?') {
            if v > U32_MAX {
                None
            } else if fin == 'h' {
                Some(CsiSeq::DecPrivateModeSet(v as u32))
            } else if fin == 'l' {
                Some(CsiSeq::DecPrivateModeReset(v as u32))
            } else {
                None
            }
        } else {
            if v > 255 {
                None
            } else if fin == 'h' {
                Some(CsiSeq::SetMode(v as u8))
            } else if fin == 'l' {
                Some(CsiSeq::ResetMode(v as u8))
            } else {
                None
            }
        }
    } else if marker.is_some() {
        None
    } else if fin == 'H' || fin == 'f' {
        let r = param_or_exec(ps, 0, 1);
        let c = param_or_exec(ps, 1, 1);
        if n <= 2 && 1 <= r && r <= U32_MAX && 1 <= c && c <= U32_MAX {
            Some(CsiSeq::CursorPos(r as u32, c as u32))
        } else {
            None
        }
    } else if fin == 'A' || fin == 'B' || fin == 'C' || fin == 'D' || fin == 'X' {
        let v = param_or_exec(ps, 0, 1);
        if one && v <= U32_MAX {
            let v = v as u32;
            Some(
                if fin == 'A' {
                    CsiSeq::CursorUp(v)
                } else if fin == 'B' {
                    CsiSeq::CursorDown(v)
                } else if fin == 'C' {
                    CsiSeq::CursorForward(v)
                } else if fin == 'D' {
                    CsiSeq::CursorBackward(v)
                } else {
                    CsiSeq::EraseCharacters(v)
                },
            )
        } else {
            None
        }
    } else if fin == 'd' || fin == 'G' {
        let v = param_or_exec(ps, 0, 1);
        if one && 1 <= v && v <= U32_MAX {
            Some(
                if fin == 'd' {
                    CsiSeq::LinePositionAbsolute(v as u32)
                } else {
                    CsiSeq::CursorCharacterAbsolute(v as u32)
                },
            )
        } else {
            None
        }
    } else if fin == 's' || fin == 'u' {
        if n == 0 {
            Some(
                if fin == 's' {
                    CsiSeq::CursorSave
                } else {
                    CsiSeq::CursorRestore
                },
            )
        } else {
            None
        }
    } else if fin == 'J' || fin == 'K' {
        let v = param_or_exec(ps, 0, 0);
        if one && v <= 2 {
            Some(
                if fin == 'J' {
                    CsiSeq::EraseDisplay(v as u8)
                } else {
                    CsiSeq::EraseInLine(v as u32)
                },
            )
        } else {
            None
        }
    } else if fin == 'm' {
        match sgr_values(ps) {
            Some(v) => Some(CsiSeq::SetGraphicsMode(v)),
            None => None,
        }
    } else if fin == 'r' {
        if n == 2 {
            match (ps[0], ps[1]) {
                (Some(t), Some(b)) => {
                    if 1 <= t && t <= U32_MAX && 1 <= b && b <= U32_MAX {
                        Some(CsiSeq::SetTopAndBottom(t as u32, b as u32))
                    } else {
                        None
                    }
                },
                _ => None,
            }
        } else {
            None
        }
    } else if fin == 'h' || fin == 'l' {
        if n == 1 && ps[0] == Some(20u64) {
            Some(
                if fin == 'h' {
                    CsiSeq::SetNewLineMode
                } else {
                    CsiSeq::SetLineFeedMode
                },
            )
        } else {
            None
        }
    } else {
        None
    }
}

fn esc_single_exec(c: char) -> (r: Option<ESCSequence>)
    ensures
        r == esc_single(c),
{
    if c == '=' {
        Some(ESCSequence::SetAlternateKeypad)
    } else if c == '>' {
        Some(ESCSequence::SetNumericKeypad)
    } else if c == 'N' {
        Some(ESCSequence::SetSingleShift2)
    } else if c == 'O' {
        Some(ESCSequence::SetSingleShift3)
    } else if c == 'M' {
        Some(ESCSequence::ReverseIndex)
    } else {
        None
    }
}

fn esc_pair_exec(g: char, c: char) -> (r: Option<ESCSequence>)
    ensures
        r == esc_pair(g, c),
{
    let zero = g == '(';
    if !zero && g != ')' {
        return None;
    }
    if c == 'A' {
        Some(if zero { ESCSequence::SetUKG0 } else { ESCSequence::SetUKG1 })
    } else if c == 'B' {
        Some(if zero { ESCSequence::SetUSG0 } else { ESCSequence::SetUSG1 })
    } else if c == '0' {
        Some(if zero { ESCSequence::SetG0SpecialChars } else { ESCSequence::SetG1SpecialChars })
    } else if c == '1' {
        Some(if zero { ESCSequence::SetG0AlternateChar } else { ESCSequence::SetG1AlternateChar })
    } else if c == '2' {
        Some(if zero { ESCSequence::SetG0AltAndSpecialGraph } else { ESCSequence::SetG1AltAndSpecialGraph })
    } else {
        None
    }
}

/// Recognises the sequence whose `ESC` is at position `i` of `s`, with the position after it.
pub fn parse_sequence_at(s: &[char], i: usize) -> (r: Option<(AnsiSequence, usize)>)
    ensures
        r is Some <==> parse_at(s@, i as int) is Some,
        r matches Some((a, j)) ==> (a@, j as int) == parse_at(s@, i as int)->0,
{
    let len = s.len();
    if !(i < len && len - i > 1 && s[i] == '\x1b') {
        return None;
    }
    let kind = s[i + 1];
    if kind == '[' {
        let p = i + 2;
        let marker = if p < len && (s[p] == '?' || s[p] == '=') {
            Some(s[p])
        } else {
            None
        };
        let q = if marker.is_some() {
            p + 1
        } else {
            p
        };
        let (e, ps) = read_params(s, q);
        if e < len && s[e] == ' ' {
            if e + 1 < len && s[e + 1] == 'q' {
                match csi_meaning_exec(marker, true, &ps, 'q') {
                    Some(c) => Some((AnsiSeq::CSI(c), e + 2)),
                    None => None,
                }
            } else {
                None
            }
        } else if e < len {
            match csi_meaning_exec(marker, false, &ps, s[e]) {
                Some(c) => Some((AnsiSeq::CSI(c), e + 1)),
                None => None,
            }
        } else {
            None
        }
    } else if kind == ']' {
        if len - i > 5 && s[i + 2] == '1' && s[i + 3] == '1' && s[i + 4] == '2' && s[i + 5] == '\x07' {
            Some((AnsiSeq::OSC(OSCSequence::ResetCursorColor), i + 6))
        } else {
            None
        }
    } else {
        match esc_single_exec(kind) {
            Some(e) => Some((AnsiSeq::ESC(e), i + 2)),
            None => {
                if len - i > 2 {
                    match esc_pair_exec(kind, s[i + 2]) {
                        Some(e) => Some((AnsiSeq::ESC(e), i + 3)),
                        None => None,
                    }
                } else {
                    None
                }
            },
        }
    }
}

/// Recognises a sequence at the start of `input`, with the number of characters it takes.
pub fn parse_sequence(input: &[char]) -> (r: Option<(AnsiSequence, usize)>)
    ensures
        r is Some <==> parse_at(input@, 0) is Some,
        r matches Some((a, j)) ==> (a@, j as int) == parse_at(input@, 0)->0,
{
    parse_sequence_at(input, 0)
}


/// One item of a parsed text: a run of plain text or one escape sequence.
#[derive(Debug, Clone, PartialEq)]
pub enum Block<T, L> {
    TextBlock(T),
    AnsiSequence(AnsiSeq<L>),
}

pub type Output = Block<Vec<char>, SgrList>;

impl View for Block<Vec<char>, SgrList> {
    type V = Block<Seq<char>, Seq<u8>>;

    open spec fn view(&self) -> Block<Seq<char>, Seq<u8>> {
        match *self {
            Block::TextBlock(t) => Block::TextBlock(t@),
            Block::AnsiSequence(a) => Block::AnsiSequence(a@),
        }
    }
}

/// First position at or after `i` that holds `ESC`, or the length.
pub open spec fn next_esc(s: Seq<char>, i: int) -> int
    decreases s.len() - i,
{
    if i < 0 {
        next_esc(s, 0)
    } else if i >= s.len() {
        s.len() as int
    } else if s[i] == '\x1b' {
        i
    } else {
        next_esc(s, i + 1)
    }
}

/// The block that starts at `i` and the position after it. Plain text runs up to the next
/// `ESC`; an `ESC` that starts no recognised sequence is kept as text up to the following one.
pub open spec fn block_at(s: Seq<char>, i: int) -> (Block<Seq<char>, Seq<u8>>, int) {
    if s[i] != '\x1b' {
        let j = next_esc(s, i);
        (Block::TextBlock(s.subrange(i, j)), j)
    } else {
        match parse_at(s, i) {
            Some((a, j)) => (Block::AnsiSequence(a), j),
            None => {
                let j = next_esc(s, i + 1);
                (Block::TextBlock(s.subrange(i, j)), j)
            },
        }
    }
}

/// All blocks of `s` from position `i` on.
pub open spec fn blocks_from(s: Seq<char>, i: int) -> Seq<Block<Seq<char>, Seq<u8>>>
    decreases s.len() - i,
{
    if 0 <= i < s.len() {
        let (b, j) = block_at(s, i);
        if i < j <= s.len() {
            seq![b] + blocks_from(s, j)
        } else {
            seq![b]
        }
    } else {
        Seq::empty()
    }
}

proof fn lemma_next_esc_bounds(s: Seq<char>, i: int)
    requires
        0 <= i <= s.len(),
    ensures
        i <= next_esc(s, i) <= s.len(),
        i < s.len() && s[i] != '\x1b' ==> i < next_esc(s, i),
        next_esc(s, i) < s.len() ==> s[next_esc(s, i)] == '\x1b',
        forall|k: int| i <= k < next_esc(s, i) ==> s[k] != '\x1b',
    decreases s.len() - i,
{
    if i < s.len() && s[i] != '\x1b' {
        lemma_next_esc_bounds(s, i + 1);
    }
}

proof fn lemma_param_end_bounds(s: Seq<char>, i: int)
    requires
        0 <= i <= s.len(),
    ensures
        i <= param_end(s, i) <= s.len(),
    decreases s.len() - i,
{
    if i < s.len() && param_char(s[i]) {
        lemma_param_end_bounds(s, i + 1);
    }
}

proof fn lemma_parse_advances(s: Seq<char>, i: int)
    requires
        0 <= i < s.len(),
        parse_at(s, i) is Some,
    ensures
        i < (parse_at(s, i)->0).1 <= s.len(),
{
    if s[i + 1] == '[' {
        let p = i + 2;
        let q = if 0 <= p < s.len() && (s[p] == '?' || s[p] == '=') { p + 1 } else { p };
        lemma_param_end_bounds(s, q);
    }
}

proof fn lemma_block_advances(s: Seq<char>, i: int)
    requires
        0 <= i < s.len(),
    ensures
        i < block_at(s, i).1 <= s.len(),
{
    if s[i] != '\x1b' {
        lemma_next_esc_bounds(s, i);
    } else if parse_at(s, i) is Some {
        lemma_parse_advances(s, i);
    } else {
        lemma_next_esc_bounds(s, i + 1);
    }
}

fn find_esc(s: &[char], i: usize) -> (r: usize)
    requires
        i <= s@.len(),
    ensures
        r == next_esc(s@, i as int),
{
    let mut j = i;
    while j < s.len() && s[j] != '\x1b'
        invariant
            i <= j <= s@.len(),
            next_esc(s@, i as int) == next_esc(s@, j as int),
        decreases s@.len() - j,
    {
        j = j + 1;
    }
    j
}

fn copy_range(s: &[char], from: usize, to: usize) -> (r: Vec<char>)
    requires
        from <= to <= s@.len(),
    ensures
        r@ == s@.subrange(from as int, to as int),
{
    let mut out: Vec<char> = Vec::new();
    let mut k = from;
    while k < to
        invariant
            from <= k <= to <= s@.len(),
            out@ == s@.subrange(from as int, k as int),
        decreases to - k,
    {
        out.push(s[k]);
        k = k + 1;
        assert(out@ =~= s@.subrange(from as int, k as int));
    }
    out
}

/// Walks a text block by block.
pub struct AnsiParseIterator {
    pub dat: Vec<char>,
    pub pos: usize,
}

impl AnsiParseIterator {
    pub fn new(dat: Vec<char>) -> (r: Self)
        ensures
            r.dat@ == dat@,
            r.pos == 0,
    {
        AnsiParseIterator { dat, pos: 0 }
    }

    /// The next block, or `None` once the text is used up.
    pub fn next(&mut self) -> (r: Option<Output>)
        requires
            old(self).pos <= old(self).dat@.len(),
        ensures
            final(self).dat == old(self).dat,
            final(self).pos <= final(self).dat@.len(),
            old(self).pos == old(self).dat@.len() ==> r is None && final(self).pos == old(self).pos,
            old(self).pos < old(self).dat@.len() ==> r is Some && ({
                let (b, j) = block_at(old(self).dat@, old(self).pos as int);
                r->0@ == b && final(self).pos == j
            }),
    {
        let s = self.dat.as_slice();
        let i = self.pos;
        if i >= s.len() {
            return None;
        }
        proof {
            lemma_block_advances(s@, i as int);
        }
        if s[i] != '\x1b' {
            let j = find_esc(s, i);
            let t = copy_range(s, i, j);
            self.pos = j;
            Some(Block::TextBlock(t))
        } else {
            match parse_sequence_at(s, i) {
                Some((a, j)) => {
                    self.pos = j;
                    Some(Block::AnsiSequence(a))
                },
                None => {
                    let j = find_esc(s, i + 1);
                    let t = copy_range(s, i, j);
                    self.pos = j;
                    Some(Block::TextBlock(t))
                },
            }
        }
    }
}

impl AnsiParseIterator {
    /// All blocks from the current position on.
    pub fn into_vec(self) -> (r: Vec<Output>)
        requires
            self.pos <= self.dat@.len(),
        ensures
            Seq::new(r@.len(), |k: int| r@[k]@) == blocks_from(self.dat@, self.pos as int),
    {
        let ghost s = self.dat@;
        let ghost start = self.pos as int;
        let mut it = self;
        let mut out: Vec<Output> = Vec::new();
        loop
            invariant
                it.dat@ == s,
                it.pos <= s.len(),
                Seq::new(out@.len(), |k: int| out@[k]@) + blocks_from(s, it.pos as int) == blocks_from(s, start),
            ensures
                Seq::new(out@.len(), |k: int| out@[k]@) == blocks_from(s, start),
            decreases s.len() - it.pos,
        {
            let ghost i = it.pos as int;
            proof {
                if i < s.len() {
                    lemma_block_advances(s, i);
                }
            }
            match it.next() {
                Some(b) => {
                    let ghost before = Seq::new(out@.len(), |k: int| out@[k]@);
                    out.push(b);
                    assert(Seq::new(out@.len(), |k: int| out@[k]@) =~= before.push(b@));
                    assert(blocks_from(s, i) =~= seq![b@] + blocks_from(s, it.pos as int));
                    assert(before + blocks_from(s, i) =~= before.push(b@) + blocks_from(s, it.pos as int));
                },
                None => {
                    assert(blocks_from(s, i) =~= Seq::<Block<Seq<char>, Seq<u8>>>::empty());
                    assert(Seq::new(out@.len(), |k: int| out@[k]@) + blocks_from(s, i) =~= Seq::new(out@.len(), |k: int| out@[k]@));
                    break;
                },
            }
        }
        out
    }
}

/// Splits `text` into plain-text runs and escape sequences, in order.
pub fn ansi_parse(text: &[char]) -> (r: Vec<Output>)
    ensures
        Seq::new(r@.len(), |k: int| r@[k]@) == blocks_from(text@, 0),
{
    let it = AnsiParseIterator::new(copy_range(text, 0, text.len()));
    assert(text@.subrange(0, text@.len() as int) =~= text@);
    it.into_vec()
}

/// The characters of a string, in order.
pub(crate) fn chars_of(s: &str) -> (r: Vec<char>)
    ensures
        r@ == s@,
{
    broadcast use vstd::string::group_string_axioms;
    let mut it = s.chars();
    let mut out: Vec<char> = Vec::new();
    loop
        invariant
            it.obeys_prophetic_iter_laws(),
            it.decrease() is Some,
            out@ + it.remaining() == s@,
        ensures
            out@ == s@,
        decreases it.decrease()->0,
    {
        match it.next() {
            Some(c) => {
                out.push(c);
            },
            None => {
                break;
            },
        }
    }
    out
}

/// Text that can be walked block by block.
pub trait AnsiParser {
    fn ansi_parse(&self) -> AnsiParseIterator;
}

impl AnsiParser for str {
    fn ansi_parse(&self) -> AnsiParseIterator {
        AnsiParseIterator::new(chars_of(self))
    }
}

impl AnsiParser for String {
    fn ansi_parse(&self) -> AnsiParseIterator {
        AnsiParseIterator::new(chars_of(self.as_str()))
    }
}

} // verus!
