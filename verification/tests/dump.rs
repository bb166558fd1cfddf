use purrtty::dump::{dump_line, dump_lines};
use purrtty::grid::{Cell, Cursor, Grid};

fn dump_row(text: &str) -> Vec<Cell> {
    text.chars().map(|ch| Cell { ch, fg: 7, bg: 0, attrs: 0 }).collect()
}

#[test]
fn dump_shows_rows_with_text_and_the_cursor() {
    let live = vec![dump_row("a한\0 "), dump_row("    "), dump_row("    "), dump_row(" b\u{3000}\t")];
    let grid = Grid::from_rows(4, vec![dump_row("gone")], live, Cursor { row: 2, col: 0 }).unwrap();
    assert_eq!(dump_lines(&grid), ["  0  |a한|", "  2* ||", "  3  | b|"]);
}

#[test]
fn dump_line_is_aligned() {
    for row in [0usize, 9, 10, 99, 100, 999, 1000, 123456] {
        for has_cursor in [false, true] {
            let mark = if has_cursor { "*" } else { " " };
            let line = dump_line(row, has_cursor, &vec!['x', 'y']);
            assert_eq!(line, format!("{:>3}{} |{}|", row, mark, "xy"));
        }
    }
}

#[test]
fn empty_screen_has_an_empty_dump() {
    let grid = Grid::from_rows(3, vec![], vec![], Cursor { row: 0, col: 0 }).unwrap();
    assert!(dump_lines(&grid).is_empty());
}
