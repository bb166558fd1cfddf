use purrtty::grid::{Cell, Cursor, Grid, WIDE_CONT};
use purrtty::selection::{
    cell_char_absolute, clamp_to_grid, point_before, selection_to_text, view_row_to_absolute,
    GridPoint, Selection,
};

fn cell(ch: char) -> Cell {
    Cell { ch, fg: 7, bg: 0, attrs: 0 }
}

/// A row of the screen: the characters, then blanks.
fn row(text: &str, cols: usize) -> Vec<Cell> {
    let mut cells: Vec<Cell> = text.chars().map(cell).collect();
    assert!(cells.len() <= cols);
    cells.resize(cols, cell(' '));
    cells
}

/// A screen with `lines` at its top, below a scrollback.
fn screen(rows: usize, cols: usize, scrollback: &[&str], lines: &[&str]) -> Grid {
    let mut live: Vec<Vec<Cell>> = lines.iter().map(|line| row(line, cols)).collect();
    live.resize(rows, row("", cols));
    let scrolled: Vec<Vec<Cell>> = scrollback.iter().map(|line| row(line, cols)).collect();
    Grid::from_rows(cols, scrolled, live, Cursor { row: 0, col: 0 }).unwrap()
}

fn select(from: (usize, usize), to: (usize, usize)) -> Selection {
    Selection { anchor: GridPoint::new(from.0, from.1), end: GridPoint::new(to.0, to.1) }
}

#[test]
fn selection_empty_by_default() {
    let s = Selection::new(GridPoint::new(0, 0));
    assert!(s.is_empty());
}

#[test]
fn selection_normalizes_backwards_drag() {
    let mut s = Selection::new(GridPoint::new(3, 5));
    s.update(GridPoint::new(1, 2));
    let (start, end) = s.normalized();
    assert_eq!(start, GridPoint::new(1, 2));
    assert_eq!(end, GridPoint::new(3, 5));
}

#[test]
fn selection_contains_cell() {
    let mut s = Selection::new(GridPoint::new(1, 2));
    s.update(GridPoint::new(1, 5));
    assert!(s.contains_cell(1, 2));
    assert!(s.contains_cell(1, 3));
    assert!(s.contains_cell(1, 4));
    assert!(!s.contains_cell(1, 5), "end is exclusive");
    assert!(!s.contains_cell(1, 1));
    assert!(!s.contains_cell(0, 3));
}

#[test]
fn view_row_to_absolute_no_scroll() {
    // No scrollback: view row 0 maps to absolute 0.
    assert_eq!(view_row_to_absolute(0, 0, 0), 0);
    assert_eq!(view_row_to_absolute(5, 0, 0), 5);
}

#[test]
fn view_row_to_absolute_with_scrollback() {
    // 100 rows of scrollback, not scrolled: view row 0 is the first live row.
    assert_eq!(view_row_to_absolute(0, 0, 100), 100);
    // Scrolled up by 10: view row 0 is at absolute 90.
    assert_eq!(view_row_to_absolute(0, 10, 100), 90);
}

#[test]
fn selection_to_text_single_row() {
    let grid = screen(4, 20, &[], &["hello world"]);
    let sel = Selection { anchor: GridPoint::new(0, 0), end: GridPoint::new(0, 5) };
    let s = selection_to_text(&sel, &grid);
    assert_eq!(s, "hello");
}

#[test]
fn selection_to_text_multi_row() {
    let grid = screen(4, 20, &[], &["line one", "line two", "line three"]);
    // Select from (0, 0) to (2, 4).
    let sel = Selection { anchor: GridPoint::new(0, 0), end: GridPoint::new(2, 4) };
    let s = selection_to_text(&sel, &grid);
    assert_eq!(s, "line one\nline two\nline");
}

#[test]
fn selection_skips_wide_char_continuation() {
    let grid = screen(2, 10, &[], &["a한\0글\0b"]);
    // Select the entire row.
    let sel = Selection { anchor: GridPoint::new(0, 0), end: GridPoint::new(0, 6) };
    let s = selection_to_text(&sel, &grid);
    assert_eq!(s, "a한글b");
}

#[test]
fn empty_selection_returns_empty_string() {
    let grid = screen(4, 20, &[], &["hello"]);
    let sel = Selection::new(GridPoint::new(0, 0));
    assert_eq!(selection_to_text(&sel, &grid), "");
}

#[test]
fn backwards_selection_has_the_same_text() {
    let grid = screen(3, 10, &["old"], &["one", "two"]);
    let forward = select((0, 1), (2, 2));
    let backward = select((2, 2), (0, 1));
    assert_eq!(selection_to_text(&forward, &grid), "ld\none\ntw");
    assert_eq!(selection_to_text(&backward, &grid), "ld\none\ntw");
    assert_eq!(forward.contains_cell(1, 9), backward.contains_cell(1, 9));
}

#[test]
fn empty_selection_covers_nothing() {
    let sel = Selection::new(GridPoint::new(2, 3));
    assert!(!sel.contains_cell(2, 3));
    assert!(!sel.contains_cell(2, 2));
}

#[test]
fn selection_covers_cells_of_three_rows() {
    let sel = select((1, 4), (3, 2));
    assert!(!sel.contains_cell(1, 3));
    assert!(sel.contains_cell(1, 4));
    assert!(sel.contains_cell(1, 79));
    assert!(sel.contains_cell(2, 0));
    assert!(sel.contains_cell(3, 1));
    assert!(!sel.contains_cell(3, 2));
    assert!(!sel.contains_cell(4, 0));
}

#[test]
fn last_row_keeps_its_spaces() {
    let grid = screen(2, 6, &[], &["ab", "cd"]);
    assert_eq!(selection_to_text(&select((0, 0), (1, 5)), &grid), "ab\ncd   ");
    // A row of blanks in between leaves an empty line.
    let grid = screen(3, 6, &[], &["ab", "", "cd"]);
    assert_eq!(selection_to_text(&select((0, 0), (2, 2)), &grid), "ab\n\ncd");
}

#[test]
fn positions_outside_the_grid_have_no_characters() {
    let grid = screen(2, 4, &[], &["abcd", "efgh"]);
    assert_eq!(selection_to_text(&select((0, 2), (0, 9)), &grid), "cd");
    assert_eq!(selection_to_text(&select((1, 0), (3, 2)), &grid), "efgh\n\n");
    assert_eq!(selection_to_text(&select((7, 0), (7, 3)), &grid), "");
    assert_eq!(selection_to_text(&select((0, 6), (1, 1)), &grid), "\ne");
    assert_eq!(selection_to_text(&select((usize::MAX, 0), (usize::MAX, 2)), &grid), "");
}

#[test]
fn selections_that_meet_in_the_last_row_join() {
    let grid = screen(2, 6, &[], &["ab", "c d"]);
    let left = selection_to_text(&select((0, 1), (1, 2)), &grid);
    let right = selection_to_text(&select((1, 2), (1, 4)), &grid);
    assert_eq!(left, "b\nc ");
    assert_eq!(left + &right, selection_to_text(&select((0, 1), (1, 4)), &grid));
}

#[test]
fn text_stays_anchored_when_rows_scroll_off() {
    let before = screen(2, 5, &["old"], &["one", "two"]);
    let after = screen(2, 5, &["old", "one"], &["two", "three"]);
    let sel = select((0, 1), (2, 2));
    assert_eq!(selection_to_text(&sel, &before), selection_to_text(&sel, &after));
    assert_eq!(selection_to_text(&sel, &after), "ld\none\ntw");
}

#[test]
fn scrolling_shows_absolute_rows() {
    let grid = screen(2, 5, &["s0", "s1"], &["l0", "l1"]);
    assert_eq!(grid.row_at(0, 0).unwrap()[0].ch, 'l');
    assert_eq!(grid.row_at(0, 1).unwrap()[1].ch, '1');
    assert_eq!(grid.row_at(1, 1).unwrap()[1].ch, '0');
    // Scrolling stops at the oldest row.
    assert_eq!(grid.row_at(0, 9).unwrap(), grid.row_at(0, 2).unwrap());
    assert!(grid.row_at(2, 0).is_none());
    for scroll in 0..4 {
        let absolute = view_row_to_absolute(1, scroll, 2);
        let shown = grid.row_at(1, scroll).unwrap();
        assert_eq!(cell_char_absolute(&grid, absolute, 0), Some(shown[0].ch));
        assert_eq!(cell_char_absolute(&grid, absolute, 1), Some(shown[1].ch));
    }
    assert_eq!(view_row_to_absolute(3, 500, 100), 3);
}

#[test]
fn cells_outside_the_grid_have_no_character() {
    let grid = screen(1, 2, &["xy"], &["ab"]);
    assert_eq!(cell_char_absolute(&grid, 0, 1), Some('y'));
    assert_eq!(cell_char_absolute(&grid, 1, 0), Some('a'));
    assert_eq!(cell_char_absolute(&grid, 1, 2), None);
    assert_eq!(cell_char_absolute(&grid, 2, 0), None);
}

#[test]
fn reading_order_goes_by_rows_first() {
    assert!(point_before(GridPoint::new(1, 9), GridPoint::new(2, 0)));
    assert!(point_before(GridPoint::new(1, 1), GridPoint::new(1, 2)));
    assert!(!point_before(GridPoint::new(1, 2), GridPoint::new(1, 2)));
    assert!(!point_before(GridPoint::new(2, 0), GridPoint::new(1, 9)));
}

#[test]
fn clamping_moves_into_the_grid() {
    assert_eq!(clamp_to_grid(3, 5, 24, 80), (3, 5));
    assert_eq!(clamp_to_grid(998, 453, 24, 80), (23, 79));
    assert_eq!(clamp_to_grid(4, 4, 0, 0), (0, 0));
}

#[test]
fn uneven_screens_are_refused() {
    let cursor = Cursor { row: 0, col: 0 };
    assert!(Grid::from_rows(3, vec![], vec![row("abc", 3), row("ab", 2)], cursor).is_none());
    let grid = Grid::from_rows(3, vec![row("a", 1)], vec![row("abc", 3)], cursor).unwrap();
    assert_eq!((grid.rows(), grid.cols(), grid.scrollback_len()), (1, 3, 1));
    assert_eq!(grid.cell(0, 2).ch, 'c');
    assert_eq!(WIDE_CONT, '\0');
}
