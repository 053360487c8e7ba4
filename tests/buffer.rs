use vt_core::buffer::{Buffer, Selection};
use vt_core::cursor::{Cursor, Direction};

#[test]
fn buffer_creating_grid_retains_correct_width_height() {
    let grid = Buffer::new(10, 5, vec![1; 10 * 5]);
    assert_eq!(grid.cols, 5);
    assert_eq!(grid.rows, 10);
    assert_eq!(grid.data.len(), 5 * 10);
}

#[test]
fn buffer_iterating_rows_should_create_correct_row_length() {
    let grid = Buffer::new(3, 5, vec![1; 3 * 5]);
    let rows: Vec<Vec<i32>> = grid.iter_rows();
    assert_eq!(rows.len(), 3);
    for row in rows {
        assert_eq!(row.len(), 5);
    }
}

#[test]
fn buffer_shifting_row_preserves_size_and_adds_empty_row_last() {
    let mut grid = Buffer::new(3, 5, vec![1; 3 * 5]);
    grid.shift_row();
    assert_eq!(grid.rows, 3);
    assert_eq!(grid.cols, 5);
    assert_eq!(grid.data.len(), 15);

    let rows: Vec<Vec<i32>> = grid.iter_rows();
    assert_eq!(rows[0], vec![1, 1, 1, 1, 1]);
    assert_eq!(rows[1], vec![1, 1, 1, 1, 1]);
    assert_eq!(rows[2], vec![0, 0, 0, 0, 0]);
}

#[test]
fn buffer_resizing_to_fewer_rows_works_correctly() {
    let mut grid = Buffer::new(3, 5, vec![1; 3 * 5]);
    grid.resize(2, 5);

    assert_eq!(grid.rows, 2);
    assert_eq!(grid.cols, 5);
    assert_eq!(grid.data, vec![1, 1, 1, 1, 1, 1, 1, 1, 1, 1]);
}

#[test]
fn buffer_resizing_to_more_rows_works_correctly() {
    let mut grid = Buffer::new(3, 2, vec![1; 3 * 2]);
    grid.resize(4, 2);

    assert_eq!(grid.rows, 4);
    assert_eq!(grid.cols, 2);
    assert_eq!(grid.data, vec![1, 1, 1, 1, 1, 1, 0, 0]);
}

#[test]
fn buffer_resizing_to_more_cols_then_fewer_rows_works_correctly() {
    let mut grid = Buffer::new(1, 2, vec![1; 1 * 2]);
    grid.resize(2, 2);
    assert_eq!(grid.data, vec![1, 1, 0, 0]);
    grid.resize(2, 1);
    assert_eq!(grid.data, vec![1, 1]);
}

#[test]
fn moving_cursor_outside_buffer_should_not_crash() {
    let mut grid = Buffer::new(2, 2, vec![1; 2 * 2]);
    grid.move_cursor(Direction::Left(5));
    assert_eq!(grid.cursor, Cursor::default());
}

#[test]
fn scrolling_one_line_down_should_work() {
    let mut grid = Buffer::new(3, 2, vec![1, 2, 3, 4, 5, 6]);
    grid.shift_row();
    assert_eq!(grid.data, vec![3, 4, 5, 6, 0, 0]);
}

#[test]
fn resize_to_fewer_rows_drops_top_rows() {
    let mut grid = Buffer::new(3, 2, vec![1, 2, 3, 4, 5, 6]);
    grid.resize(1, 2);
    assert_eq!(grid.data, vec![5, 6]);
    assert_eq!(grid.rows, 1);
}

#[test]
fn resize_twice_is_resize_once() {
    let mut a = Buffer::new(3, 2, vec![1, 2, 3, 4, 5, 6]);
    a.cursor.set_position(2, 1);
    a.resize(2, 3);
    let once = a.data.clone();
    let cursor_once = a.cursor;
    a.resize(2, 3);
    assert_eq!(a.data, once);
    assert_eq!(a.cursor, cursor_once);
    assert_eq!(a.data, vec![3, 4, 5, 6, 0, 0]);
    assert_eq!((a.cursor.row, a.cursor.col), (1, 1));
}

#[test]
fn resize_clamps_cursor() {
    let mut a = Buffer::new(4, 4, vec![0; 16]);
    a.cursor.set_position(3, 3);
    a.resize(2, 2);
    assert_eq!((a.cursor.row, a.cursor.col), (1, 1));
    assert_eq!(a.scroll_region(), (0, 1));
}

#[test]
fn newline_then_carriage_return_matches_newline_mode() {
    let mut a = Buffer::new(3, 4, (0..12).collect());
    a.cursor.set_position(1, 2);
    let mut b = Buffer::new(3, 4, (0..12).collect());
    b.cursor.set_position(1, 2);
    a.newline(false);
    a.carriage_return();
    b.newline(true);
    assert_eq!(a.cursor, b.cursor);
    assert_eq!(a.data, b.data);
    assert_eq!((a.cursor.row, a.cursor.col), (2, 0));
}

#[test]
fn newline_on_last_row_scrolls() {
    let mut a = Buffer::new(2, 2, vec![1, 2, 3, 4]);
    a.cursor.set_position(1, 1);
    a.newline(false);
    assert_eq!(a.data, vec![3, 4, 0, 0]);
    assert_eq!((a.cursor.row, a.cursor.col), (1, 1));
}

#[test]
fn save_move_restore_gives_saved_cursor() {
    let mut a = Buffer::new(5, 5, vec![0; 25]);
    a.cursor.set_position(2, 3);
    a.save_cursor();
    a.move_cursor(Direction::Up(7));
    a.move_cursor(Direction::Right(1));
    a.carriage_return();
    a.newline(true);
    a.backspace();
    a.cursor.set_position(4, 0);
    a.advance_cursor(true);
    a.unshift_row();
    a.set_cursor_position(9, 9);
    a.restore_cursor();
    assert_eq!((a.cursor.row, a.cursor.col), (2, 3));
    assert_eq!(a.saved_cursor(), None);
}

#[test]
fn erase_characters_runs_across_rows_to_the_end() {
    let mut a = Buffer::new(2, 2, vec![1, 2, 3, 4]);
    a.clear_selection(Selection::Characters(3));
    assert_eq!(a.data, vec![0, 0, 0, 4]);
    let mut b = Buffer::new(2, 2, vec![1, 2, 3, 4]);
    b.cursor.set_position(0, 1);
    b.clear_selection(Selection::Characters(u32::MAX));
    assert_eq!(b.data, vec![1, 0, 0, 0]);
    assert_eq!((b.cursor.row, b.cursor.col), (0, 1));
}

#[test]
fn restore_without_save_keeps_cursor() {
    let mut a = Buffer::new(2, 2, vec![0; 4]);
    a.cursor.set_position(1, 1);
    a.restore_cursor();
    assert_eq!((a.cursor.row, a.cursor.col), (1, 1));
}

#[test]
fn erase_selections_on_a_row() {
    let base: Vec<i32> = (1..=10).collect();
    let cases = [
        (Selection::ToEndOfLine, vec![1, 2, 3, 4, 5, 6, 7, 0, 0, 0]),
        (Selection::FromStartOfLine, vec![1, 2, 3, 4, 5, 0, 0, 8, 9, 10]),
        (Selection::Line, vec![1, 2, 3, 4, 5, 0, 0, 0, 0, 0]),
        (Selection::ToEndOfDisplay, vec![1, 2, 3, 4, 5, 6, 7, 0, 0, 0]),
        (Selection::FromStartOfDisplay, vec![0, 0, 0, 0, 0, 0, 0, 8, 9, 10]),
        (Selection::Display, vec![0; 10]),
        (Selection::Characters(2), vec![1, 2, 3, 4, 5, 6, 7, 0, 0, 10]),
        (Selection::Characters(9), vec![1, 2, 3, 4, 5, 6, 7, 0, 0, 0]),
        (Selection::Characters(0), base.clone()),
    ];
    for (sel, expected) in cases {
        let mut a = Buffer::new(2, 5, base.clone());
        a.cursor.set_position(1, 2);
        a.clear_selection(sel);
        assert_eq!(a.data, expected);
        assert_eq!((a.cursor.row, a.cursor.col), (1, 2));
    }
}

#[test]
fn reverse_index_moves_region_down_at_top() {
    let mut a = Buffer::new(3, 2, vec![1, 2, 3, 4, 5, 6]);
    a.unshift_row();
    assert_eq!(a.data, vec![0, 0, 1, 2, 3, 4]);
    assert_eq!(a.cursor.row, 0);
    a.cursor.set_position(2, 0);
    a.unshift_row();
    assert_eq!(a.cursor.row, 1);
}

#[test]
fn scroll_region_limits_shift() {
    let mut a = Buffer::new(4, 1, vec![1, 2, 3, 4]);
    a.set_top_bottom(1, 2);
    assert_eq!(a.scroll_region(), (1, 2));
    a.shift_row();
    assert_eq!(a.data, vec![1, 3, 0, 4]);
    a.set_top_bottom(3, 9);
    assert_eq!(a.scroll_region(), (3, 3));
}

#[test]
fn advance_wraps_only_when_asked() {
    let mut a = Buffer::new(2, 2, vec![0; 4]);
    a.advance_cursor(true);
    a.advance_cursor(true);
    assert_eq!((a.cursor.row, a.cursor.col), (0, 2));
    a.advance_cursor(false);
    assert_eq!((a.cursor.row, a.cursor.col), (0, 2));
    a.advance_cursor(true);
    assert_eq!((a.cursor.row, a.cursor.col), (1, 0));
}

#[test]
fn cursor_moves_saturate_at_edges() {
    let mut a = Buffer::new(3, 4, vec![0; 12]);
    a.move_cursor(Direction::Down(usize::MAX));
    a.move_cursor(Direction::Right(100));
    assert_eq!((a.cursor.row, a.cursor.col), (2, 3));
    a.move_cursor(Direction::Up(1));
    a.move_cursor(Direction::Left(2));
    assert_eq!((a.cursor.row, a.cursor.col), (1, 1));
    a.set_cursor_position(50, 50);
    assert_eq!((a.cursor.row, a.cursor.col), (2, 3));
}

#[test]
fn get_reads_only_cells_on_the_grid() {
    let a = Buffer::new(2, 2, vec![1, 2, 3, 4]);
    let mut c = Cursor::default();
    c.set_position(1, 0);
    assert_eq!(a.get(c), Some(3));
    c.set_position(0, 2);
    assert_eq!(a.get(c), None);
}
