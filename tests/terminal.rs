use vt_core::cell::{CellStyle, FontWeight};
use vt_core::colors::{eight_bit_rgb, scale_to_256, TerminalColor};
use vt_core::cursor::CursorStyle;
use vt_core::pty_reader::{PtyReader, TermOut, TerminalOutput};
use vt_core::terminal::{key_bytes, NamedKey, TermMessage, Terminal, TerminalSize, WindowFocus};

fn term(cols: usize, rows: usize) -> Terminal {
    Terminal::new(TerminalSize::new(cols, rows))
}

fn feed(t: &mut Terminal, bytes: &[u8]) {
    let mut reader = PtyReader::new();
    reader.extend(bytes);
    if let Some(tokens) = reader.process_buffer() {
        t.parse(tokens);
    }
}

fn row_text(t: &Terminal, row: usize) -> String {
    let b = t.buffer();
    b.data[row * b.cols..(row + 1) * b.cols].iter().map(|c| c.content).collect()
}

fn cursor(t: &Terminal) -> (usize, usize) {
    (t.buffer().cursor.row, t.buffer().cursor.col)
}

#[test]
fn hello_newline() {
    let mut t = term(5, 3);
    for b in [b'H', b'i', 0x0d, 0x0a, b'!'] {
        feed(&mut t, &[b]);
    }
    assert_eq!(row_text(&t, 0), "Hi   ");
    assert_eq!(row_text(&t, 1), "!    ");
    assert_eq!(cursor(&t), (1, 1));
}

#[test]
fn sgr_red_then_reset() {
    let mut t = term(10, 2);
    feed(&mut t, b"\x1b[31mAB\x1b[0mC");
    let b = t.buffer();
    assert_eq!(b.data[0].content, 'A');
    assert_eq!(b.data[0].style.foreground, TerminalColor::Red);
    assert_eq!(b.data[1].content, 'B');
    assert_eq!(b.data[1].style.foreground, TerminalColor::Red);
    assert_eq!(b.data[2].content, 'C');
    assert_eq!(b.data[2].style, CellStyle::default());
}

#[test]
fn csi_cursor_pos() {
    let mut t = term(80, 24);
    feed(&mut t, b"\x1b[5;20HX");
    let b = t.buffer();
    assert_eq!(b.data[4 * 80 + 19].content, 'X');
    assert_eq!(cursor(&t), (4, 20));
}

#[test]
fn alternate_buffer_save_restore() {
    let mut t = term(10, 3);
    feed(&mut t, b"hello");
    feed(&mut t, b"\x1b[?1049h");
    feed(&mut t, b"bye");
    assert_eq!(row_text(&t, 0), "bye       ");
    feed(&mut t, b"\x1b[?1049l");
    assert_eq!(row_text(&t, 0), "hello     ");
    assert_eq!(cursor(&t), (0, 5));
    for r in 1..3 {
        assert_eq!(row_text(&t, r), "          ");
    }
}

fn abcde_at_col_3() -> Terminal {
    let mut t = term(5, 2);
    feed(&mut t, b"ABCDE\x1b[1;4H");
    assert_eq!(cursor(&t), (0, 3));
    t
}

#[test]
fn erase_in_line_variants() {
    let mut t = abcde_at_col_3();
    feed(&mut t, b"\x1b[0K");
    assert_eq!(row_text(&t, 0), "ABC  ");
    let mut t = abcde_at_col_3();
    feed(&mut t, b"\x1b[1K");
    assert_eq!(row_text(&t, 0), "   DE");
    let mut t = abcde_at_col_3();
    feed(&mut t, b"\x1b[2K");
    assert_eq!(row_text(&t, 0), "     ");
    assert_eq!(cursor(&t), (0, 3));
}

#[test]
fn reverse_index_at_top() {
    let mut t = term(10, 3);
    feed(&mut t, b"hello");
    assert_eq!(cursor(&t), (0, 5));
    feed(&mut t, b"\x1bM");
    assert_eq!(row_text(&t, 0), "          ");
    assert_eq!(row_text(&t, 1), "hello     ");
    assert_eq!(cursor(&t), (0, 5));
}

#[test]
fn printing_past_last_column_wraps() {
    let mut t = term(3, 2);
    feed(&mut t, b"abc");
    assert_eq!(cursor(&t), (0, 3));
    feed(&mut t, b"d");
    assert_eq!(row_text(&t, 0), "abc");
    assert_eq!(row_text(&t, 1), "d  ");
    assert_eq!(cursor(&t), (1, 1));
}

#[test]
fn wrapping_on_last_row_scrolls() {
    let mut t = term(3, 2);
    feed(&mut t, b"abc\r\nxyzq");
    assert_eq!(row_text(&t, 0), "xyz");
    assert_eq!(row_text(&t, 1), "q  ");
    assert_eq!(cursor(&t), (1, 1));
}

#[test]
fn without_auto_wrap_extra_characters_are_dropped() {
    let mut t = term(3, 2);
    feed(&mut t, b"\x1b[?7labcdef");
    assert!(!t.auto_wrap_mode());
    assert_eq!(row_text(&t, 0), "abc");
    assert_eq!(row_text(&t, 1), "   ");
}

#[test]
fn home_position_is_top_left() {
    let mut t = term(4, 4);
    feed(&mut t, b"\x1b[3;3H\x1b[1;1H");
    assert_eq!(cursor(&t), (0, 0));
    feed(&mut t, b"\x1b[0;0H");
    assert_eq!(row_text(&t, 0), "\u{1b}[0;");
}

#[test]
fn grid_keeps_its_shape_under_any_input() {
    let mut t = term(4, 3);
    feed(&mut t, b"\x1b[99;99Hxyz\r\n\n\n\x08\x08\x08\x08\x08abcdefghijklmnop\x1b[10A\x1b[10D\x1bM\x1bM\x1b[2J\x1b[5X");
    let b = t.buffer();
    assert_eq!(b.data.len(), b.rows * b.cols);
    assert!(b.cursor.row < b.rows);
    assert!(b.cursor.col <= b.cols);
}

#[test]
fn saved_cursor_survives_motion() {
    let mut t = term(10, 5);
    feed(&mut t, b"\x1b[3;4H\x1b[s\x1b[1;1Habc\r\n\x1b[5B\x1b[u");
    assert_eq!(cursor(&t), (2, 3));
}

#[test]
fn modes_follow_private_sequences() {
    let mut t = term(4, 2);
    feed(&mut t, b"\x1b[?1h\x1b[?1004h\x1b[?25l\x1b[?2004h\x1b[20h");
    assert!(t.application_mode());
    assert!(t.focus_mode());
    assert!(!t.cursor_visible());
    assert!(t.bracketed_paste_mode());
    assert!(t.newline_mode());
    feed(&mut t, b"\x1b[?1l\x1b[?1004l\x1b[?25h\x1b[?2004l\x1b[20l");
    assert!(!t.application_mode());
    assert!(!t.focus_mode());
    assert!(t.cursor_visible());
    assert!(!t.bracketed_paste_mode());
    assert!(!t.newline_mode());
}

#[test]
fn newline_mode_returns_to_first_column() {
    let mut t = term(4, 3);
    feed(&mut t, b"\x1b[20hab\n");
    assert_eq!(cursor(&t), (1, 0));
    feed(&mut t, b"\x1b[20lcd\n");
    assert_eq!(cursor(&t), (2, 2));
}

#[test]
fn cursor_style_and_region_sequences() {
    let mut t = term(4, 4);
    feed(&mut t, b"\x1b[4 q");
    assert_eq!(t.buffer().cursor.style, CursorStyle::SteadyUnderline);
    feed(&mut t, b"\x1b[9 q");
    assert_eq!(t.buffer().cursor.style, CursorStyle::SteadyBlock);
    feed(&mut t, b"\x1b[2;3r");
    assert_eq!(t.buffer().scroll_region(), (1, 2));
}

#[test]
fn erase_display_variants() {
    let mut t = term(2, 2);
    feed(&mut t, b"abcd\x1b[2;1H\x1b[1J");
    assert_eq!(row_text(&t, 0), "  ");
    assert_eq!(row_text(&t, 1), "cd");
    feed(&mut t, b"\x1b[J");
    assert_eq!(row_text(&t, 1), "  ");
    let mut t = term(2, 2);
    feed(&mut t, b"abcd\x1b[2J");
    assert_eq!(row_text(&t, 0), "  ");
    assert_eq!(row_text(&t, 1), "  ");
}

#[test]
fn erase_characters_sequence_crosses_row_end() {
    let mut t = term(3, 2);
    feed(&mut t, b"abcdef\x1b[1;3H\x1b[2X");
    assert_eq!(row_text(&t, 0), "ab ");
    assert_eq!(row_text(&t, 1), " ef");
    assert_eq!(cursor(&t), (0, 2));
}

#[test]
fn alternate_screen_ignores_line_controls() {
    let mut t = term(6, 3);
    feed(&mut t, b"top\r\nrow");
    feed(&mut t, b"\x1b[?1049hx\r\ny\x08\x08z\n\n\n\x1bM\x1b[2J");
    feed(&mut t, b"\x1b[?1049l");
    assert_eq!(row_text(&t, 0), "top   ");
    assert_eq!(row_text(&t, 1), "row   ");
    assert_eq!(cursor(&t), (1, 3));
}

#[test]
fn ascii_bytes_decode_to_themselves() {
    let mut r = PtyReader::new();
    r.extend(b"plain text ~");
    assert_eq!(r.process_buffer().unwrap(), vec![TermOut::Text("plain text ~".to_string())]);
}

#[test]
fn graphics_attributes_accumulate() {
    let mut t = term(4, 1);
    feed(&mut t, b"\x1b[1;3;4;7;9m\x1b[38;5;196m\x1b[48;2;1;2;3m");
    let s = t.current_cell_style();
    assert_eq!(s.weight, FontWeight::Bold);
    assert!(s.italic && s.underline && s.reversed && s.strikethrough);
    assert_eq!(s.foreground, TerminalColor::EightBit(196));
    assert_eq!(s.background, TerminalColor::TwentyFourBit(1, 2, 3));
    assert_eq!(s.foreground_color(), TerminalColor::TwentyFourBit(1, 2, 3));
    assert_eq!(s.background_color(), TerminalColor::EightBit(196));
    feed(&mut t, b"\x1b[m");
    assert_eq!(t.current_cell_style(), CellStyle::default());
}

#[test]
fn empty_attribute_list_resets_style() {
    let mut s = CellStyle::default();
    s.modify(&[2, 93, 104, 24, 27]);
    assert_eq!(s.weight, FontWeight::Dim);
    assert_eq!(s.foreground, TerminalColor::Yellow);
    assert_eq!(s.background, TerminalColor::Blue);
    s.modify(&[]);
    assert_eq!(s, CellStyle::default());
    s.modify(&[38, 77, 15, 255]);
    assert_eq!(s, CellStyle::default());
}

#[test]
fn focus_reports_follow_focus_mode() {
    let mut t = term(2, 2);
    assert_eq!(t.focus(), None);
    assert_eq!(t.focus_changed(WindowFocus::Unfocus), None);
    feed(&mut t, b"\x1b[?1004h");
    assert_eq!(t.focus(), Some(TermMessage::Bytes(b"\x1b[I".to_vec())));
    assert_eq!(t.unfocus(), Some(TermMessage::Bytes(b"\x1b[O".to_vec())));
    assert_eq!(t.focus_changed(WindowFocus::Focus), Some(TermMessage::Bytes(b"\x1b[I".to_vec())));
}

#[test]
fn resize_reports_cols_then_rows() {
    let mut t = term(4, 4);
    feed(&mut t, b"abcd");
    let m = t.resize(TerminalSize::new(6, 2));
    assert_eq!(m, TermMessage::WindowResized(6, 2));
    assert_eq!(t.size(), TerminalSize::new(6, 2));
    let b = t.buffer();
    assert_eq!((b.rows, b.cols, b.data.len()), (2, 6, 12));
}

#[test]
fn framer_splits_controls_and_decodes_text() {
    let mut r = PtyReader::new();
    assert!(r.process_buffer().is_none());
    r.extend(&[b'a', 0x08, 0x0a, 0x0d, b'b', 0xff, b'c']);
    let out: Vec<TerminalOutput> = r.process_buffer().unwrap();
    assert_eq!(
        out,
        vec![
            TermOut::Text("a".to_string()),
            TermOut::Backspace,
            TermOut::NewLine,
            TermOut::CarriageReturn,
            TermOut::Text("b\u{fffd}c".to_string()),
        ]
    );
    assert!(r.buffer.is_empty());
    r.extend(b"\n");
    assert_eq!(r.process_buffer().unwrap(), vec![TermOut::NewLine, TermOut::Text(String::new())]);
}

#[test]
fn multibyte_text_fills_one_cell_per_character() {
    let mut t = term(4, 1);
    feed(&mut t, "é€".as_bytes());
    assert_eq!(row_text(&t, 0), "é€  ");
    assert_eq!(cursor(&t), (0, 2));
}

#[test]
fn keys_map_to_bytes() {
    assert_eq!(key_bytes(NamedKey::ArrowUp), Some(b"\x1b[A".to_vec()));
    assert_eq!(key_bytes(NamedKey::ArrowLeft), Some(b"\x1b[D".to_vec()));
    assert_eq!(key_bytes(NamedKey::Enter), Some(vec![b'\r']));
    assert_eq!(key_bytes(NamedKey::Backspace), Some(vec![0x7f]));
    assert_eq!(key_bytes(NamedKey::Other), None);
}

#[test]
fn palette_values() {
    assert_eq!(scale_to_256(0), 0);
    assert_eq!(scale_to_256(1), 95);
    assert_eq!(scale_to_256(5), 255);
    assert_eq!(eight_bit_rgb(15), None);
    assert_eq!(eight_bit_rgb(16), Some((0, 0, 0)));
    assert_eq!(eight_bit_rgb(196), Some((255, 0, 0)));
    assert_eq!(eight_bit_rgb(231), Some((255, 255, 255)));
    assert_eq!(eight_bit_rgb(232), Some((8, 8, 8)));
    assert_eq!(eight_bit_rgb(255), Some((238, 238, 238)));
}
