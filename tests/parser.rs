use vt_core::parser::{ansi_parse, parse_sequence, AnsiParser, Output};
use vt_core::sequences::{AnsiSequence, CSISequence, ESCSequence, OSCSequence};
use vt_core::sgr_list::SgrList;

fn sgr(values: &[u8]) -> SgrList {
    SgrList::from_slice(values).unwrap()
}

fn chars(s: &str) -> Vec<char> {
    s.chars().collect()
}

fn render(a: &AnsiSequence) -> String {
    a.render().into_iter().collect()
}

fn parse_whole(s: &str) -> AnsiSequence {
    let input = chars(s);
    let (a, n) = parse_sequence(&input).expect("a recognised sequence");
    assert_eq!(n, input.len());
    a
}

#[test]
fn test_parser_iterator() {
    let count = "\x1b[=25l\x1b[=7l\x1b[0m\x1b[36m\x1b[1m-`".ansi_parse().into_vec().len();

    assert_eq!(count, 6);
}

#[test]
fn test_parser_iterator_failure() {
    let count = "\x1b[=25l\x1b[=7l\x1b[0m\x1b[36;1;15;2m\x1b[1m-`".ansi_parse().into_vec().len();

    assert_eq!(count, 6);
}

#[test]
fn test_default_value() {
    let strings: Vec<Output> = ansi_parse(&chars("\x1b[H\x1b[123456H\x1b[;123456H\x1b[7asd;1234H\x1b[a;sd7H"));
    assert_eq!(strings.len(), 5);
    assert_eq!(strings[0], Output::AnsiSequence(AnsiSequence::CSI(CSISequence::CursorPos(1, 1))));
    assert_eq!(strings[1], Output::AnsiSequence(AnsiSequence::CSI(CSISequence::CursorPos(123456, 1))));
    assert_eq!(strings[2], Output::AnsiSequence(AnsiSequence::CSI(CSISequence::CursorPos(1, 123456))));
    assert_eq!(strings[3], Output::TextBlock(chars("\x1b[7asd;1234H")));
    assert_eq!(strings[4], Output::TextBlock(chars("\x1b[a;sd7H")));
}

#[test]
fn test_cursor_pos() {
    let pos = CSISequence::CursorPos(5, 20);
    let buff = render(&AnsiSequence::CSI(pos));

    assert_eq!(buff, "\x1b[5;20H");
}

#[test]
fn canonical_forms_render_back_exactly() {
    let forms = [
        "\x1b[10;5H", "\x1b[5A", "\x1b[5B", "\x1b[5C", "\x1b[5D", "\x1b[2 q", "\x1b[s", "\x1b[u",
        "\x1b[J", "\x1b[1J", "\x1b[2J", "\x1b[K", "\x1b[1K", "\x1b[2K", "\x1b[43X", "\x1b[4m",
        "\x1b[4;42m", "\x1b[4;31;42m", "\x1b[4;31;42;42;42m", "\x1b[m", "\x1b[=13l", "\x1b[=7h",
        "\x1b[?25h", "\x1b[?25l", "\x1b[?1h", "\x1b[?1049h", "\x1b[?1049l", "\x1b[?2004h",
        "\x1b[?1004l", "\x1b[20h", "\x1b[20l", "\x1b[3;20r", "\x1b[7d", "\x1b[9G", "\x1b]112\x07",
        "\x1bN", "\x1bO", "\x1b=", "\x1b>", "\x1bM", "\x1b(A", "\x1b)A", "\x1b(B", "\x1b)B",
        "\x1b(0", "\x1b)0", "\x1b(1", "\x1b)1", "\x1b(2", "\x1b)2",
    ];
    for s in forms {
        let a = parse_whole(s);
        assert_eq!(render(&a), s);
    }
}

#[test]
fn defaults_collapse_to_one_rendering() {
    let cases = [
        ("\x1b[H", "\x1b[1;1H"),
        ("\x1b[;H", "\x1b[1;1H"),
        ("\x1b[1;1f", "\x1b[1;1H"),
        ("\x1b[A", "\x1b[1A"),
        ("\x1b[0J", "\x1b[J"),
        ("\x1b[0K", "\x1b[K"),
        ("\x1b[X", "\x1b[1X"),
        ("\x1b[007;0042r", "\x1b[7;42r"),
    ];
    for (input, canonical) in cases {
        let a = parse_whole(input);
        let text = render(&a);
        assert_eq!(text, canonical);
        assert_eq!(parse_whole(&text), a);
    }
}

#[test]
fn zero_cursor_position_is_not_a_sequence() {
    assert!(parse_sequence(&chars("\x1b[0;0H")).is_none());
    assert!(parse_sequence(&chars("\x1b[0;5H")).is_none());
    assert_eq!(parse_whole("\x1b[1;1H"), AnsiSequence::CSI(CSISequence::CursorPos(1, 1)));
}

#[test]
fn out_of_range_parameters_are_rejected() {
    assert!(parse_sequence(&chars("\x1b[4294967296A")).is_none());
    assert_eq!(parse_whole("\x1b[4294967295A"), AnsiSequence::CSI(CSISequence::CursorUp(4294967295)));
    assert!(parse_sequence(&chars("\x1b[256m")).is_none());
    assert!(parse_sequence(&chars("\x1b[3J")).is_none());
    assert!(parse_sequence(&chars("\x1b[1;2;3H")).is_none());
    assert!(parse_sequence(&chars("\x1b[1;1;1;1;1;1;1;1;1;1;1;1;1;1;1;1;1m")).is_none());
    assert!(parse_sequence(&chars("\x1b[5")).is_none());
    assert!(parse_sequence(&chars("\x1b]112")).is_none());
    assert!(parse_sequence(&chars("\x1b(Z")).is_none());
}

#[test]
fn graphics_lists_keep_their_values() {
    assert_eq!(
        parse_whole("\x1b[38;2;10;20;30m"),
        AnsiSequence::CSI(CSISequence::SetGraphicsMode(sgr(&[38, 2, 10, 20, 30])))
    );
    assert_eq!(parse_whole("\x1b[m"), AnsiSequence::CSI(CSISequence::SetGraphicsMode(sgr(&[]))));
}

#[test]
fn sixteen_attributes_fit_in_one_list() {
    let a = parse_whole("\x1b[1;2;3;4;7;9;24;27;30;31;32;33;34;35;36;37m");
    assert_eq!(
        a,
        AnsiSequence::CSI(CSISequence::SetGraphicsMode(sgr(&[1, 2, 3, 4, 7, 9, 24, 27, 30, 31, 32, 33, 34, 35, 36, 37])))
    );
    assert_eq!(render(&a), "\x1b[1;2;3;4;7;9;24;27;30;31;32;33;34;35;36;37m");
}

#[test]
fn other_sequence_kinds() {
    assert_eq!(parse_whole("\x1b]112\x07"), AnsiSequence::OSC(OSCSequence::ResetCursorColor));
    assert_eq!(parse_whole("\x1bM"), AnsiSequence::ESC(ESCSequence::ReverseIndex));
    assert_eq!(parse_whole("\x1b(B"), AnsiSequence::ESC(ESCSequence::SetUSG0));
    assert_eq!(parse_whole("\x1b[?1049h"), AnsiSequence::CSI(CSISequence::DecPrivateModeSet(1049)));
    assert_eq!(parse_whole("\x1b[=7l"), AnsiSequence::CSI(CSISequence::ResetMode(7)));
}

#[test]
fn blocks_split_text_and_sequences() {
    let blocks = ansi_parse(&chars("ab\x1b[31mcd\x1bZx\x1b[s"));
    assert_eq!(
        blocks,
        vec![
            Output::TextBlock(chars("ab")),
            Output::AnsiSequence(AnsiSequence::CSI(CSISequence::SetGraphicsMode(sgr(&[31])))),
            Output::TextBlock(chars("cd")),
            Output::TextBlock(chars("\x1bZx")),
            Output::AnsiSequence(AnsiSequence::CSI(CSISequence::CursorSave)),
        ]
    );
    assert!(ansi_parse(&[]).is_empty());
}

#[test]
fn iterator_walks_block_by_block() {
    let mut it = "x\x1b[u".ansi_parse();
    assert_eq!(it.next(), Some(Output::TextBlock(chars("x"))));
    assert_eq!(it.next(), Some(Output::AnsiSequence(AnsiSequence::CSI(CSISequence::CursorRestore))));
    assert_eq!(it.next(), None);
    assert_eq!(String::from("\x1bM").ansi_parse().into_vec().len(), 1);
}
