//! A dump of the live screen, for inspection without a window.
use crate::grid::{visible_chars, Cell, Grid, GridView, WIDE_CONT};
use crate::text::{
    decimal, is_white_space, lemma_trim_white_space, push_chars, push_decimal,
    trim_trailing_white_space, trim_white_space,
};
use vstd::prelude::*;
use vstd::string::StringExecFns;

verus! {

/// `text` with spaces in front, to at least three characters.
pub open spec fn right_aligned(text: Seq<char>) -> Seq<char> {
    if text.len() >= 3 {
        text
    } else {
        Seq::new((3 - text.len()) as nat, |i: int| ' ') + text
    }
}

/// The line of a dump that stands for one row: its number, a star where the
/// cursor is in it, and its text between bars.
pub open spec fn dump_line_spec(row: int, has_cursor: bool, text: Seq<char>) -> Seq<char> {
    right_aligned(decimal(row as nat)) + (if has_cursor {
        "*"@
    } else {
        " "@
    }) + " |"@ + text + "|"@
}

/// The text of a row of the live screen in a dump.
pub open spec fn dump_text(grid: GridView, row: int) -> Seq<char> {
    trim_white_space(visible_chars(grid.live[row]))
}

/// The dump of the first `count` rows: the rows with text and the row of the
/// cursor.
pub open spec fn dump_spec(grid: GridView, count: int) -> Seq<Seq<char>>
    decreases count,
{
    if count <= 0 {
        seq![]
    } else {
        let row = count - 1;
        let text = dump_text(grid, row);
        if text.len() != 0 || row == grid.cursor.row {
            dump_spec(grid, row).push(dump_line_spec(row, row == grid.cursor.row, text))
        } else {
            dump_spec(grid, row)
        }
    }
}

/// The line of a dump that stands for one row.
pub fn dump_line(row: usize, has_cursor: bool, text: &Vec<char>) -> (line: String)
    ensures
        line@ == dump_line_spec(row as int, has_cursor, text@),
{
    let mut line = String::new();
    if row < 10 {
        line.push(' ');
    }
    if row < 100 {
        line.push(' ');
    }
    proof {
        reveal_with_fuel(decimal, 3);
        assert(line@ + decimal(row as nat) == right_aligned(decimal(row as nat)));
    }
    push_decimal(&mut line, row);
    line.append(if has_cursor {
        "*"
    } else {
        " "
    });
    line.append(" |");
    push_chars(&mut line, text);
    line.append("|");
    line
}

/// The characters of a row of the live screen, without the continuations of
/// wide characters.
fn live_row_chars(grid: &Grid, row: usize) -> (chars: Vec<char>)
    requires
        grid@.wf(),
        row < grid@.live.len(),
    ensures
        chars@ == visible_chars(grid@.live[row as int]),
{
    let mut chars: Vec<char> = Vec::new();
    let cols: usize = grid.cols();
    let ghost cells = grid@.live[row as int];
    let mut col: usize = 0;
    reveal(Seq::filter);
    while col < cols
        invariant
            col <= cols,
            row < grid@.live.len(),
            cells == grid@.live[row as int],
            cells.len() == cols,
            chars@ == visible_chars(cells.take(col as int)),
        decreases cols - col,
    {
        proof {
            reveal(Seq::filter);
            let now = cells.take(col + 1).map_values(|cell: Cell| cell.ch);
            assert(now.drop_last() == cells.take(col as int).map_values(|cell: Cell| cell.ch));
        }
        let ch = grid.cell(row, col).ch;
        col += 1;
        if ch == WIDE_CONT {
            continue;
        }
        chars.push(ch);
    }
    assert(cells.take(col as int) == cells);
    chars
}

/// Dumps the live screen, one line for each row that holds text or the cursor.
pub fn dump_lines(grid: &Grid) -> (lines: Vec<String>)
    requires
        grid@.wf(),
    ensures
        lines@.map_values(|line: String| line@) == dump_spec(grid@, grid@.live.len() as int),
{
    let mut lines: Vec<String> = Vec::new();
    let ghost mut dumped: Seq<Seq<char>> = seq![];
    let rows: usize = grid.rows();
    let mut row: usize = 0;
    while row < rows
        invariant
            row <= rows,
            rows == grid@.live.len(),
            grid@.wf(),
            dumped == dump_spec(grid@, row as int),
            dumped == lines@.map_values(|line: String| line@),
        decreases rows - row,
    {
        let mut text = live_row_chars(grid, row);
        trim_trailing_white_space(&mut text);
        let has_cursor = row == grid.cursor.row;
        if text.len() != 0 || has_cursor {
            let line = dump_line(row, has_cursor, &text);
            proof {
                dumped = dumped.push(line@);
            }
            lines.push(line);
        }
        row += 1;
    }
    lines
}

/// The row of the cursor is always part of the dump.
pub proof fn lemma_cursor_row_is_dumped(grid: GridView, count: int)
    requires
        grid.cursor.row < count <= grid.live.len(),
    ensures
        dump_spec(grid, count).contains(
            dump_line_spec(
                grid.cursor.row as int,
                true,
                dump_text(grid, grid.cursor.row as int),
            ),
        ),
    decreases count,
{
    let line = dump_line_spec(
        grid.cursor.row as int,
        true,
        dump_text(grid, grid.cursor.row as int),
    );
    let now = dump_spec(grid, count);
    if grid.cursor.row == count - 1 {
        assert(now.last() == line);
    } else {
        lemma_cursor_row_is_dumped(grid, count - 1);
        let before = dump_spec(grid, count - 1);
        let i = choose|i: int| 0 <= i < before.len() && before[i] == line;
        assert(now[i] == line);
    }
}

/// A line of a dump is the row's number, set to the right of three columns or
/// more, a star for the row of the cursor or else a space, and the row's text
/// between bars.
pub proof fn lemma_dump_line(row: int, has_cursor: bool, text: Seq<char>)
    requires
        0 <= row,
    ensures
        ({
            let line = dump_line_spec(row, has_cursor, text);
            let digits = decimal(row as nat);
            let width = if digits.len() < 3 {
                3
            } else {
                digits.len() as int
            };
            &&& line.len() == width + 4 + text.len()
            &&& forall|i: int| 0 <= i < width - digits.len() ==> #[trigger] line[i] == ' '
            &&& line.subrange(width - digits.len(), width) == digits
            &&& line[width] == (if has_cursor {
                '*'
            } else {
                ' '
            })
            &&& line[width + 1] == ' '
            &&& line[width + 2] == '|'
            &&& line.subrange(width + 3, width + 3 + text.len()) == text
            &&& line.last() == '|'
        }),
{
    reveal_strlit("*");
    reveal_strlit(" ");
    reveal_strlit(" |");
    reveal_strlit("|");
    let line = dump_line_spec(row, has_cursor, text);
    let digits = decimal(row as nat);
    let width = if digits.len() < 3 {
        3
    } else {
        digits.len() as int
    };
    assert(line.subrange(width - digits.len(), width) == digits);
    assert(line.subrange(width + 3, width + 3 + text.len()) == text);
}

/// The text of a row in a dump is the row's characters up to the last one that
/// is no white space, whether the cursor is in the row or not.
pub proof fn lemma_dumped_text(grid: GridView, row: int)
    ensures
        ({
            let chars = visible_chars(grid.live[row]);
            let text = dump_text(grid, row);
            &&& text.is_prefix_of(chars)
            &&& forall|i: int|
                text.len() <= i < chars.len() ==> is_white_space(#[trigger] chars[i])
            &&& text.len() > 0 ==> !is_white_space(text.last())
        }),
{
    lemma_trim_white_space(visible_chars(grid.live[row]));
}

/// A dump has a line for each row that shows more than white space and for the
/// row of the cursor, from top to bottom, and no others. The line holds the
/// row's characters up to the last one that is no white space.
pub proof fn lemma_dump_row_by_row(grid: GridView, row: int) -> (text: Seq<char>)
    requires
        0 <= row,
    ensures
        text.is_prefix_of(visible_chars(grid.live[row])),
        forall|i: int|
            text.len() <= i < visible_chars(grid.live[row]).len() ==> is_white_space(
                #[trigger] visible_chars(grid.live[row])[i],
            ),
        text.len() > 0 ==> !is_white_space(text.last()),
        dump_spec(grid, 0) == Seq::<Seq<char>>::empty(),
        text.len() > 0 && row != grid.cursor.row ==> dump_spec(grid, row + 1) == dump_spec(
            grid,
            row,
        ).push(dump_line_spec(row, false, text)),
        row == grid.cursor.row ==> dump_spec(grid, row + 1) == dump_spec(grid, row).push(
            dump_line_spec(row, true, text),
        ),
        text.len() == 0 && row != grid.cursor.row ==> dump_spec(grid, row + 1) == dump_spec(
            grid,
            row,
        ),
{
    lemma_dumped_text(grid, row);
    dump_text(grid, row)
}

} // verus!
