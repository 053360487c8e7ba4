use vt_core::cursor::Cursor;
use vt_core::grid::{Grid, Selection};

#[test]
fn grid_creating_grid_retains_correct_width_height() {
    let grid = Grid::new(10, 5, vec![1; 10 * 5]);
    assert_eq!(grid.cols, 5);
    assert_eq!(grid.rows, 10);
    assert_eq!(grid.data.len(), 5 * 10);
}

#[test]
fn grid_iterating_rows_should_create_correct_row_length() {
    let grid = Grid::new(3, 5, vec![1; 3 * 5]);
    let rows: Vec<Vec<i32>> = grid.iter_rows();
    assert_eq!(rows.len(), 3);
    for row in rows {
        assert_eq!(row.len(), 5);
    }
}

#[test]
fn grid_shifting_row_preserves_size_and_adds_empty_row_last() {
    let mut grid = Grid::new(3, 5, vec![1; 3 * 5]);
    grid.shift_row();
    assert_eq!(grid.rows, 3);
    assert_eq!(grid.cols, 5);
    assert_eq!(grid.data.len(), 15);

    let rows: Vec<Vec<i32>> = grid.iter_rows();
    assert_eq!(rows[0], vec![1, 1, 1, 1, 1]);
    assert_eq!(rows[1], vec![1, 1, 1, 1, 1]);
    assert_eq!(rows[2], vec![0, 0, 0, 0, 0]);
}

#[test]
fn grid_resizing_to_fewer_rows_works_correctly() {
    let mut grid = Grid::new(3, 5, vec![1; 3 * 5]);
    grid.resize(2, 5);

    assert_eq!(grid.rows, 2);
    assert_eq!(grid.cols, 5);
    assert_eq!(grid.data, vec![1, 1, 1, 1, 1, 1, 1, 1, 1, 1]);
}

#[test]
fn grid_resizing_to_more_rows_works_correctly() {
    let mut grid = Grid::new(3, 2, vec![1; 3 * 2]);
    grid.resize(4, 2);

    assert_eq!(grid.rows, 4);
    assert_eq!(grid.cols, 2);
    assert_eq!(grid.data, vec![1, 1, 1, 1, 1, 1, 0, 0]);
}

#[test]
fn grid_resizing_to_more_cols_then_fewer_rows_works_correctly() {
    let mut grid = Grid::new(3, 2, vec![1; 3 * 2]);
    grid.resize(3, 3);
    assert_eq!(grid.data, vec![1, 1, 1, 1, 1, 1, 0, 0, 0]);
    grid.resize(2, 3);
    // The top row, [1, 1, 1], is the one dropped.
    assert_eq!(grid.data, vec![1, 1, 1, 0, 0, 0]);
}

#[test]
fn grid_clear_selections() {
    let mut c = Cursor::default();
    c.set_position(0, 1);
    let cases = [
        (Selection::Line(c), vec![0, 0, 0, 4, 5, 6]),
        (Selection::FromStartOfLine(c), vec![0, 2, 3, 4, 5, 6]),
        (Selection::ToEndOfLine(c), vec![1, 0, 0, 4, 5, 6]),
        (Selection::ToEndOfDisplay(c), vec![1, 0, 0, 0, 0, 0]),
    ];
    for (sel, expected) in cases {
        let mut grid = Grid::new(2, 3, vec![1, 2, 3, 4, 5, 6]);
        grid.clear_selection(sel);
        assert_eq!(grid.data, expected);
    }
}
