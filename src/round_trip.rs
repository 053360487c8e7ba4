use vstd::prelude::*;
use crate::parser::{
    csi_meaning, digit_value, fields_of, is_digit, param_char, param_end, params_of, parse_at,
    with_digit, PARAM_CAP,
};
use crate::sequences::{csi_parts, decimal, digit_char, joined, rendered, AnsiSeq, CsiSeq, ESCSequence};

verus! {

/// The sequences that have a wire form: numbers within the ranges the parser accepts.
pub open spec fn canonical(a: AnsiSeq<Seq<u8>>) -> bool {
    match a {
        AnsiSeq::CSI(c) => match c {
            CsiSeq::CursorPos(r, k) => r >= 1 && k >= 1,
            CsiSeq::LinePositionAbsolute(n) => n >= 1,
            CsiSeq::CursorCharacterAbsolute(n) => n >= 1,
            CsiSeq::EraseDisplay(n) => n <= 2,
            CsiSeq::EraseInLine(n) => n <= 2,
            CsiSeq::SetGraphicsMode(v) => v.len() <= 16,
            CsiSeq::SetTopAndBottom(t, b) => t >= 1 && b >= 1,
            _ => true,
        },
        AnsiSeq::OSC(_) => true,
        AnsiSeq::ESC(e) => e != ESCSequence::Escape,
    }
}

proof fn lemma_digit(d: nat)
    requires
        d < 10,
    ensures
        is_digit(digit_char(d)),
        digit_value(digit_char(d)) == d,
{
}

proof fn lemma_decimal_digits(n: nat)
    ensures
        decimal(n).len() >= 1,
        forall|k: int| 0 <= k < decimal(n).len() ==> is_digit(#[trigger] decimal(n)[k]),
    decreases n,
{
    lemma_digit(n % 10);
    if n >= 10 {
        lemma_decimal_digits(n / 10);
        assert forall|k: int| 0 <= k < decimal(n).len() implies is_digit(#[trigger] decimal(n)[k]) by {
            if k < decimal(n / 10).len() {
                assert(decimal(n)[k] == decimal(n / 10)[k]);
            }
        }
    }
}

proof fn lemma_joined_params(v: Seq<nat>)
    ensures
        forall|k: int| 0 <= k < joined(v).len() ==> param_char(#[trigger] joined(v)[k]),
        v.len() >= 1 ==> joined(v).len() >= 1 && is_digit(joined(v)[0]),
    decreases v.len(),
{
    if v.len() == 1 {
        lemma_decimal_digits(v[0]);
    } else if v.len() >= 2 {
        lemma_joined_params(v.drop_last());
        lemma_decimal_digits(v.last());
        let a = joined(v.drop_last()).push(';');
        assert forall|k: int| 0 <= k < joined(v).len() implies param_char(#[trigger] joined(v)[k]) by {
            if k < a.len() {
                assert(joined(v)[k] == a[k]);
                if k < joined(v.drop_last()).len() {
                    assert(a[k] == joined(v.drop_last())[k]);
                }
            } else {
                assert(joined(v)[k] == decimal(v.last())[k - a.len()]);
            }
        }
        assert(joined(v)[0] == a[0]);
    }
}

proof fn lemma_fields_decimal(p: Seq<char>, n: nat)
    requires
        fields_of(p).1 is None,
        n < PARAM_CAP,
    ensures
        fields_of(p + decimal(n)) == (fields_of(p).0, Some(n as u64)),
    decreases n,
{
    let d = digit_char(n % 10);
    lemma_digit(n % 10);
    if n < 10 {
        let q = p + decimal(n);
        assert(q.drop_last() =~= p);
        assert(q.last() == d);
    } else {
        lemma_fields_decimal(p, n / 10);
        let a = p + decimal(n / 10);
        let q = p + decimal(n);
        assert(q =~= a.push(d));
        assert(a.push(d).drop_last() =~= a);
        assert(with_digit(Some((n / 10) as u64), d) == n);
    }
}

pub open spec fn somes(v: Seq<nat>) -> Seq<Option<u64>> {
    Seq::new(v.len(), |k: int| Some(v[k] as u64))
}

proof fn lemma_fields_joined(v: Seq<nat>)
    requires
        v.len() >= 1,
        forall|k: int| 0 <= k < v.len() ==> #[trigger] v[k] < PARAM_CAP,
    ensures
        fields_of(joined(v)) == (somes(v.drop_last()), Some(v.last() as u64)),
    decreases v.len(),
{
    if v.len() == 1 {
        lemma_fields_decimal(Seq::empty(), v[0]);
        assert(Seq::<char>::empty() + decimal(v[0]) =~= decimal(v[0]));
        assert(somes(v.drop_last()) =~= Seq::empty());
    } else {
        let w = v.drop_last();
        assert(forall|k: int| 0 <= k < w.len() ==> #[trigger] w[k] == v[k]);
        lemma_fields_joined(w);
        let a = joined(w).push(';');
        assert(a.drop_last() =~= joined(w));
        lemma_fields_decimal(a, v.last());
        assert(somes(w.drop_last()).push(Some(w.last() as u64)) =~= somes(w));
    }
}

proof fn lemma_params_joined(v: Seq<nat>)
    requires
        forall|k: int| 0 <= k < v.len() ==> #[trigger] v[k] < PARAM_CAP,
    ensures
        params_of(joined(v)) == somes(v),
{
    if v.len() == 0 {
        assert(somes(v) =~= Seq::empty());
    } else {
        lemma_fields_joined(v);
        lemma_joined_params(v);
        assert(somes(v.drop_last()).push(Some(v.last() as u64)) =~= somes(v));
    }
}

proof fn lemma_param_end_run(s: Seq<char>, k: int, e: int)
    requires
        0 <= k <= e < s.len(),
        !param_char(s[e]),
        forall|m: int| k <= m < e ==> param_char(#[trigger] s[m]),
    ensures
        param_end(s, k) == e,
    decreases e - k,
{
    if k < e {
        lemma_param_end_run(s, k + 1, e);
    }
}

proof fn lemma_csi_meaning(c: CsiSeq<Seq<u8>>)
    requires
        canonical(AnsiSeq::CSI(c)),
    ensures
        ({
            let (m, nums, fin) = csi_parts(c);
            let marker = if m.len() == 0 { None } else { Some(m[0]) };
            let space = fin.len() == 2;
            csi_meaning(marker, space, somes(nums), fin.last()) == Some(c)
        }),
{
    match c {
        CsiSeq::SetGraphicsMode(v) => {
            let nums = csi_parts(c).1;
            let ps = somes(nums);
            assert(Seq::new(ps.len(), |k: int| ps[k]->0 as u8) =~= v);
        },
        CsiSeq::EraseDisplay(n) => {
            assert(n == 0 ==> somes(csi_parts(c).1) =~= Seq::empty());
        },
        CsiSeq::EraseInLine(n) => {
            assert(n == 0 ==> somes(csi_parts(c).1) =~= Seq::empty());
        },
        CsiSeq::CursorSave => {
            assert(somes(csi_parts(c).1) =~= Seq::empty());
        },
        CsiSeq::CursorRestore => {
            assert(somes(csi_parts(c).1) =~= Seq::empty());
        },
        _ => {},
    }
}

/// A sequence with a wire form parses back from its rendering, taking all of it.
pub proof fn render_then_parse(a: AnsiSeq<Seq<u8>>)
    requires
        canonical(a),
    ensures
        parse_at(rendered(a), 0) == Some((a, rendered(a).len() as int)),
{
    let s = rendered(a);
    match a {
        AnsiSeq::CSI(c) => {
            let (m, nums, fin) = csi_parts(c);
            assert forall|k: int| 0 <= k < nums.len() implies #[trigger] nums[k] < PARAM_CAP by {}
            lemma_params_joined(nums);
            lemma_joined_params(nums);
            lemma_csi_meaning(c);
            let j = joined(nums);
            let q: int = 2 + m.len() as int;
            let e: int = q + j.len() as int;
            assert(s =~= seq!['\x1b', '['] + m + j + fin);
            assert forall|k: int| q <= k < e implies param_char(#[trigger] s[k]) by {
                assert(s[k] == j[k - q]);
            }
            assert(s[e] == fin[0]);
            lemma_param_end_run(s, q, e);
            assert(s.subrange(q, e) =~= j);
            if m.len() == 0 {
                if j.len() > 0 {
                    assert(s[2] == j[0]);
                }
            }
        },
        AnsiSeq::OSC(_) => {},
        AnsiSeq::ESC(e) => {
            assert(s =~= seq!['\x1b'] + crate::sequences::esc_tail(e));
        },
    }
}

proof fn lemma_parsed_canonical(s: Seq<char>, i: int)
    requires
        parse_at(s, i) is Some,
    ensures
        canonical((parse_at(s, i)->0).0),
{
}

/// Whatever the parser recognises, its rendering parses back to the same sequence: rendering
/// gives one canonical form per sequence, whatever defaults or zeros the input spelled out.
pub proof fn parse_render_round_trip(s: Seq<char>, i: int)
    requires
        parse_at(s, i) is Some,
    ensures
        ({
            let a = (parse_at(s, i)->0).0;
            parse_at(rendered(a), 0) == Some((a, rendered(a).len() as int))
        }),
{
    lemma_parsed_canonical(s, i);
    render_then_parse((parse_at(s, i)->0).0);
}

} // verus!
