//! Text selection.
//!
//! A selection is two points in **absolute** rows, so it stays on the same
//! content while the view scrolls and while rows move into the scrollback.
use crate::grid::{
    lemma_absolute_rows_keep_their_numbers, lemma_visible_characters, view_to_absolute,
    visible_chars, Cell, Grid, GridView, WIDE_CONT,
};
use crate::text::{lemma_trim_spaces, push_chars, trim_spaces, trim_trailing_spaces};
use vstd::prelude::*;

verus! {

/// A point in absolute grid coordinates.
#[derive(Debug, Clone, Copy, PartialEq, Eq, Structural)]
pub struct GridPoint {
    pub row: usize,
    pub col: usize,
}

impl GridPoint {
    pub fn new(row: usize, col: usize) -> (point: GridPoint)
        ensures
            point.row == row,
            point.col == col,
    {
        GridPoint { row, col }
    }

    /// Whether the point comes before `other` in reading order: by rows, and
    /// by columns within a row.
    pub open spec fn before(self, other: GridPoint) -> bool {
        self.row < other.row || (self.row == other.row && self.col < other.col)
    }
}

/// A contiguous selection of characters between two points, each of which may
/// come first in reading order. Of the two, the later one is not selected.
#[derive(Debug, Clone, Copy)]
pub struct Selection {
    pub anchor: GridPoint,
    pub end: GridPoint,
}

impl Selection {
    /// The earlier of the two points in reading order.
    pub open spec fn first(self) -> GridPoint {
        if self.anchor.before(self.end) {
            self.anchor
        } else {
            self.end
        }
    }

    /// The later of the two points in reading order.
    pub open spec fn last(self) -> GridPoint {
        if self.anchor.before(self.end) {
            self.end
        } else {
            self.anchor
        }
    }

    /// Whether the selection covers the cell at `point`: the first point and
    /// all that follow it up to the last, which is left out.
    pub open spec fn covers(self, point: GridPoint) -> bool {
        !point.before(self.first()) && point.before(self.last())
    }

    /// The columns selected in an absolute row: from the first point or the
    /// left edge, up to the last point or the right edge.
    pub open spec fn columns(self, row: int, cols: int) -> (int, int) {
        (
            if row == self.first().row {
                self.first().col as int
            } else {
                0
            },
            if row == self.last().row {
                self.last().col as int
            } else {
                cols
            },
        )
    }

    /// The selected characters of an absolute row.
    pub open spec fn row_chars(self, grid: GridView, row: int) -> Seq<char> {
        let (from, to) = self.columns(row, grid.cols);
        stretch_chars(grid, row, from, to)
    }

    /// The text of the selected rows above `until`: each without the spaces
    /// that pad it, and with a line feed.
    pub open spec fn text_above(self, grid: GridView, until: int) -> Seq<char>
        decreases until - self.first().row,
    {
        if until <= self.first().row {
            seq![]
        } else {
            self.text_above(grid, until - 1) + trim_spaces(self.row_chars(grid, until - 1)).push('\n')
        }
    }

    /// The selected text. The last row keeps its spaces.
    pub open spec fn text(self, grid: GridView) -> Seq<char> {
        if self.anchor == self.end {
            seq![]
        } else {
            self.text_above(grid, self.last().row as int) + self.row_chars(
                grid,
                self.last().row as int,
            )
        }
    }

    pub fn new(at: GridPoint) -> (selection: Selection)
        ensures
            selection.anchor == at,
            selection.end == at,
    {
        Selection { anchor: at, end: at }
    }

    /// Moves the end; the anchor stays.
    pub fn update(&mut self, to: GridPoint)
        ensures
            final(self).anchor == old(self).anchor,
            final(self).end == to,
    {
        self.end = to;
    }

    pub fn is_empty(&self) -> (empty: bool)
        ensures
            empty == (self.anchor == self.end),
    {
        self.anchor == self.end
    }

    /// The two points in reading order.
    pub fn normalized(&self) -> (points: (GridPoint, GridPoint))
        ensures
            points == (self.first(), self.last()),
            !points.1.before(points.0),
    {
        if point_before(self.anchor, self.end) {
            (self.anchor, self.end)
        } else {
            (self.end, self.anchor)
        }
    }

    /// Whether the selection covers the cell at an absolute position.
    pub fn contains_cell(&self, row: usize, col: usize) -> (covered: bool)
        ensures
            covered == self.covers(GridPoint { row, col }),
    {
        if self.is_empty() {
            return false;
        }
        let (start, end) = self.normalized();
        let p = GridPoint::new(row, col);
        !point_before(p, start) && point_before(p, end)
    }
}

/// Whether `a` comes before `b` in reading order.
pub fn point_before(a: GridPoint, b: GridPoint) -> (before: bool)
    ensures
        before == a.before(b),
{
    a.row < b.row || (a.row == b.row && a.col < b.col)
}

/// The characters of an absolute row from one column up to another, without the
/// continuations of wide characters. Cells that do not exist have none.
pub open spec fn stretch_chars(grid: GridView, row: int, from: int, to: int) -> Seq<char> {
    match grid.absolute_row(row) {
        Some(cells) => {
            let stop = if to <= cells.len() {
                to
            } else {
                cells.len() as int
            };
            if from < stop {
                visible_chars(cells.subrange(from, stop))
            } else {
                seq![]
            }
        },
        None => seq![],
    }
}

/// Moves a view row and a column into a grid of the given size. An empty grid
/// is treated like one of a single cell.
pub fn clamp_to_grid(row: usize, col: usize, rows: usize, cols: usize) -> (cell: (usize, usize))
    ensures
        cell.0 == (if row < rows {
            row as int
        } else if rows > 0 {
            rows - 1
        } else {
            0
        }),
        cell.1 == (if col < cols {
            col as int
        } else if cols > 0 {
            cols - 1
        } else {
            0
        }),
{
    let last_row: usize = rows.saturating_sub(1);
    let last_col: usize = cols.saturating_sub(1);
    (
        if row < last_row {
            row
        } else {
            last_row
        },
        if col < last_col {
            col
        } else {
            last_col
        },
    )
}

/// The absolute row that a view row shows.
pub fn view_row_to_absolute(
    view_row: usize,
    scroll_offset: usize,
    scrollback_len: usize,
) -> (row: usize)
    requires
        view_to_absolute(view_row as int, scroll_offset as int, scrollback_len as int)
            <= usize::MAX,
    ensures
        row == view_to_absolute(view_row as int, scroll_offset as int, scrollback_len as int),
        scroll_offset <= scrollback_len ==> row + scroll_offset == scrollback_len + view_row,
        scroll_offset > scrollback_len ==> row == view_row,
{
    let offset: usize = if scroll_offset < scrollback_len {
        scroll_offset
    } else {
        scrollback_len
    };
    (scrollback_len - offset) + view_row
}

/// The character of a cell in absolute coordinates.
pub fn cell_char_absolute(grid: &Grid, abs_row: usize, col: usize) -> (ch: Option<char>)
    ensures
        ch == grid@.char_at(abs_row as int, col as int),
{
    let sb_len: usize = grid.scrollback_len();
    let found = if abs_row < sb_len {
        grid.row_at(0, sb_len - abs_row)
    } else {
        grid.row_at(abs_row - sb_len, 0)
    };
    match found {
        Some(cells) => if col < cells.len() {
            Some(cells[col].ch)
        } else {
            None
        },
        None => None,
    }
}

proof fn lemma_stretch_step(grid: GridView, row: int, from: int, to: int)
    requires
        0 <= from <= to,
    ensures
        stretch_chars(grid, row, from, to + 1) == stretch_chars(grid, row, from, to) + (
        match grid.char_at(row, to) {
            Some(ch) => if ch != WIDE_CONT {
                seq![ch]
            } else {
                seq![]
            },
            None => seq![],
        }),
{
    match grid.absolute_row(row) {
        Some(cells) => {
            if to < cells.len() {
                let keep = |ch: char| ch != WIDE_CONT;
                let before = cells.subrange(from, to).map_values(|cell: Cell| cell.ch);
                let one = seq![cells[to].ch];
                assert(cells.subrange(from, to + 1).map_values(|cell: Cell| cell.ch) == before + one);
                Seq::filter_distributes_over_add(before, one, keep);
                reveal_with_fuel(Seq::filter, 2);
                assert(one.drop_last() == Seq::<char>::empty());
                assert(cells.subrange(from, from).map_values(|cell: Cell| cell.ch) == Seq::<char>::empty());
            }
        },
        None => {},
    }
}

/// The text that a selection covers.
///
/// Positions outside the grid contribute no characters, and neither do the
/// continuations of wide characters.
pub fn selection_to_text(sel: &Selection, grid: &Grid) -> (text: String)
    ensures
        text@ == sel.text(grid@),
{
    if sel.is_empty() {
        return String::new();
    }
    let (start, end) = sel.normalized();
    let cols: usize = grid.cols();
    let mut out = String::new();
    let mut row: usize = start.row;
    while row < end.row
        invariant
            start == sel.first(),
            end == sel.last(),
            cols == grid@.cols,
            start.row <= row <= end.row,
            out@ == sel.text_above(grid@, row as int),
        decreases end.row - row,
    {
        let c_start: usize = if row == start.row {
            start.col
        } else {
            0
        };
        let mut row_buf = stretch_to_chars(grid, row, c_start, cols);
        trim_trailing_spaces(&mut row_buf);
        push_chars(&mut out, &row_buf);
        out.push('\n');
        row += 1;
        assert(out@ == sel.text_above(grid@, row as int));
    }
    let c_start: usize = if row == start.row {
        start.col
    } else {
        0
    };
    let row_buf = stretch_to_chars(grid, row, c_start, end.col);
    push_chars(&mut out, &row_buf);
    out
}

/// The characters of an absolute row from one column up to another.
fn stretch_to_chars(grid: &Grid, row: usize, from: usize, to: usize) -> (chars: Vec<char>)
    ensures
        chars@ == stretch_chars(grid@, row as int, from as int, to as int),
{
    let mut chars: Vec<char> = Vec::new();
    let mut col: usize = from;
    while col < to
        invariant
            from <= col,
            from <= to ==> col <= to,
            from > to ==> col == from,
            chars@ == stretch_chars(grid@, row as int, from as int, col as int),
        decreases to - col,
    {
        proof {
            lemma_stretch_step(grid@, row as int, from as int, col as int);
        }
        if let Some(ch) = cell_char_absolute(grid, row, col) {
            if ch != WIDE_CONT {
                chars.push(ch);
            }
        }
        col += 1;
    }
    chars
}

/// A selection dragged backwards is the selection dragged forwards.
pub proof fn lemma_direction_does_not_matter(forward: Selection, backward: Selection, grid: GridView)
    requires
        backward.anchor == forward.end,
        backward.end == forward.anchor,
    ensures
        backward.first() == forward.first(),
        backward.last() == forward.last(),
        forall|point: GridPoint| backward.covers(point) == forward.covers(point),
        backward.text(grid) == forward.text(grid),
{
    lemma_text_above_depends_on_start(forward, backward, grid, forward.last().row as int);
}

proof fn lemma_text_above_depends_on_start(a: Selection, b: Selection, grid: GridView, until: int)
    requires
        a.first() == b.first(),
        until <= a.last().row,
        until <= b.last().row,
    ensures
        a.text_above(grid, until) == b.text_above(grid, until),
    decreases until - a.first().row,
{
    if until > a.first().row {
        lemma_text_above_depends_on_start(a, b, grid, until - 1);
    }
}

/// An empty selection covers no cell and has no text.
pub proof fn lemma_empty_selection(sel: Selection, point: GridPoint, grid: GridView)
    requires
        sel.anchor == sel.end,
    ensures
        !sel.covers(point),
        sel.text(grid) == Seq::<char>::empty(),
{
}

/// A cell lies in the columns selected in its row exactly when the selection
/// covers it, in every row for the columns of the grid, and in the last row for
/// every column.
pub proof fn lemma_columns_are_covered_cells(sel: Selection, point: GridPoint, cols: int)
    requires
        point.row == sel.last().row || point.col < cols,
    ensures
        ({
            let (from, to) = sel.columns(point.row as int, cols);
            sel.covers(point) <==> sel.first().row <= point.row <= sel.last().row && from
                <= point.col < to
        }),
{
}

/// Selected text holds no continuation of a wide character.
pub proof fn lemma_text_skips_continuations(sel: Selection, grid: GridView)
    ensures
        !sel.text(grid).contains(WIDE_CONT),
{
    let end = sel.last().row as int;
    lemma_text_above_skips_continuations(sel, grid, end);
    lemma_row_skips_continuations(sel, grid, end);
}

proof fn lemma_row_skips_continuations(sel: Selection, grid: GridView, row: int)
    ensures
        !sel.row_chars(grid, row).contains(WIDE_CONT),
{
    broadcast use vstd::seq_lib::group_filter_ensures;

}

proof fn lemma_text_above_skips_continuations(sel: Selection, grid: GridView, until: int)
    ensures
        !sel.text_above(grid, until).contains(WIDE_CONT),
    decreases until - sel.first().row,
{
    if until > sel.first().row {
        lemma_text_above_skips_continuations(sel, grid, until - 1);
        lemma_row_skips_continuations(sel, grid, until - 1);
        lemma_trim_spaces(sel.row_chars(grid, until - 1));
    }
}

/// A selection within one row has the characters of its columns, with all their
/// spaces.
pub proof fn lemma_single_row_text(sel: Selection, grid: GridView)
    requires
        sel.anchor.row == sel.end.row,
    ensures
        sel.text(grid) == stretch_chars(
            grid,
            sel.anchor.row as int,
            sel.first().col as int,
            sel.last().col as int,
        ),
{
    assert(sel.text_above(grid, sel.last().row as int) == Seq::<char>::empty());
}

/// Two selections that meet in the row where the later one lies have the text
/// of the selection that spans both.
pub proof fn lemma_adjacent_selections_join(
    left: Selection,
    right: Selection,
    both: Selection,
    grid: GridView,
)
    requires
        right.anchor.row == right.end.row,
        left.last() == right.first(),
        both.first() == left.first(),
        both.last() == right.last(),
    ensures
        both.text(grid) == left.text(grid) + right.text(grid),
{
    let row = right.anchor.row as int;
    let above = left.text_above(grid, row);
    lemma_text_above_depends_on_start(left, both, grid, row);
    lemma_single_row_text(right, grid);
    lemma_text_is_rows(left, grid);
    lemma_text_is_rows(both, grid);
    lemma_stretches_join(
        grid,
        row,
        left.columns(row, grid.cols).0,
        left.last().col as int,
        right.last().col as int,
    );
    assert(both.text(grid) == above + (left.row_chars(grid, row) + right.text(grid)));
}

proof fn lemma_text_is_rows(sel: Selection, grid: GridView)
    ensures
        sel.text(grid) == sel.text_above(grid, sel.last().row as int) + sel.row_chars(
            grid,
            sel.last().row as int,
        ),
{
}

proof fn lemma_stretches_join(grid: GridView, row: int, from: int, middle: int, to: int)
    requires
        0 <= from <= middle <= to,
    ensures
        stretch_chars(grid, row, from, to) == stretch_chars(grid, row, from, middle)
            + stretch_chars(grid, row, middle, to),
    decreases to - middle,
{
    if middle < to {
        lemma_stretches_join(grid, row, from, middle, to - 1);
        lemma_stretch_step(grid, row, from, to - 1);
        lemma_stretch_step(grid, row, middle, to - 1);
    }
}

/// Selected text stays the same while rows move into the scrollback and new
/// rows appear below.
pub proof fn lemma_text_stays_anchored(sel: Selection, before: GridView, after: GridView)
    requires
        before.absolute().is_prefix_of(after.absolute()),
        before.cols == after.cols,
        sel.last().row < before.absolute().len(),
    ensures
        sel.text(after) == sel.text(before),
{
    lemma_text_above_stays_anchored(sel, before, after, sel.last().row as int);
    lemma_absolute_rows_keep_their_numbers(before, after, sel.last().row as int);
}

proof fn lemma_text_above_stays_anchored(
    sel: Selection,
    before: GridView,
    after: GridView,
    until: int,
)
    requires
        before.absolute().is_prefix_of(after.absolute()),
        before.cols == after.cols,
        until <= before.absolute().len(),
    ensures
        sel.text_above(after, until) == sel.text_above(before, until),
    decreases until - sel.first().row,
{
    if until > sel.first().row {
        lemma_text_above_stays_anchored(sel, before, after, until - 1);
        lemma_absolute_rows_keep_their_numbers(before, after, until - 1);
    }
}

/// Scrolling moves rows through the view and leaves their absolute numbers:
/// what a view row shows, the row `lines` further down shows after scrolling
/// back by `lines`.
pub proof fn lemma_scrolling_keeps_absolute_rows(
    grid: GridView,
    view_row: int,
    scroll_offset: int,
    lines: int,
)
    requires
        scroll_offset <= grid.scrollback.len(),
        scroll_offset + lines <= grid.scrollback.len(),
    ensures
        view_to_absolute(view_row + lines, scroll_offset + lines, grid.scrollback.len() as int)
            == view_to_absolute(view_row, scroll_offset, grid.scrollback.len() as int),
        grid.row_at(view_row + lines, scroll_offset + lines) == grid.row_at(view_row, scroll_offset),
{
}

/// Reading order goes from row to row and from left to right within a row.
pub proof fn lemma_reading_order(a: GridPoint, b: GridPoint, c: GridPoint)
    ensures
        a.row < b.row ==> a.before(b),
        a.row == b.row && a.col < b.col ==> a.before(b),
        a.before(b) ==> !b.before(a),
        a != b ==> a.before(b) || b.before(a),
        a.before(b) && b.before(c) ==> a.before(c),
{
}

/// The first and the last point are the two ends of the selection, whichever
/// was set first, in reading order.
pub proof fn lemma_ends_in_reading_order(sel: Selection)
    ensures
        sel.first().row <= sel.last().row,
        sel.first().row == sel.last().row ==> sel.first().col <= sel.last().col,
        (sel.first() == sel.anchor && sel.last() == sel.end) || (sel.first() == sel.end
            && sel.last() == sel.anchor),
{
}

/// A cell is covered exactly when it lies between the two ends, of which the one
/// that comes first in reading order belongs to the selection and the other
/// does not.
pub proof fn lemma_covered_cells(sel: Selection, point: GridPoint)
    ensures
        sel.covers(point) <==> {
            ||| (point == sel.anchor || sel.anchor.before(point)) && point.before(sel.end)
            ||| (point == sel.end || sel.end.before(point)) && point.before(sel.anchor)
        },
{
}

/// A selection of one cell has the character of that cell. It has none where the
/// cell continues a wide character or does not exist.
pub proof fn lemma_one_cell_text(sel: Selection, grid: GridView)
    requires
        sel.anchor.row == sel.end.row,
        sel.last().col == sel.first().col + 1,
    ensures
        ({
            let row = sel.anchor.row as int;
            let col = sel.first().col as int;
            let rows = grid.scrollback + grid.live;
            if row < rows.len() && col < rows[row].len() && rows[row][col].ch != '\0' {
                sel.text(grid) == seq![rows[row][col].ch]
            } else {
                sel.text(grid) == Seq::<char>::empty()
            }
        }),
{
    let row = sel.anchor.row as int;
    let col = sel.first().col as int;
    lemma_single_row_text(sel, grid);
    let rows = grid.scrollback + grid.live;
    if row < rows.len() && col < rows[row].len() {
        let cell = rows[row][col];
        assert(rows[row].subrange(col, col + 1) == seq![cell]);
        lemma_visible_characters(Seq::<Cell>::empty(), Seq::<Cell>::empty(), cell);
    }
}

/// The characters of a stretch of a row are those of its cells from one column
/// up to another, as far as there are any.
pub proof fn lemma_stretch_is_part_of_row(grid: GridView, row: int, from: int, to: int)
    requires
        0 <= from <= to,
        0 <= row,
    ensures
        ({
            let rows = grid.scrollback + grid.live;
            &&& row < rows.len() && to <= rows[row].len() ==> stretch_chars(grid, row, from, to)
                == visible_chars(rows[row].subrange(from, to))
            &&& row < rows.len() && to >= rows[row].len() >= from ==> stretch_chars(
                grid,
                row,
                from,
                to,
            ) == visible_chars(rows[row].subrange(from, rows[row].len() as int))
            &&& row < rows.len() && from >= rows[row].len() ==> stretch_chars(grid, row, from, to)
                == Seq::<char>::empty()
            &&& row >= rows.len() ==> stretch_chars(grid, row, from, to) == Seq::<char>::empty()
        }),
{
    let rows = grid.scrollback + grid.live;
    if row < rows.len() {
        let cells = rows[row];
        if cells.len() > 0 {
            lemma_visible_characters(Seq::<Cell>::empty(), Seq::<Cell>::empty(), cells[0]);
        }
        assert(from <= cells.len() ==> cells.subrange(from, from) == Seq::<Cell>::empty());
        if cells.len() == 0 {
            reveal(Seq::filter);
            assert(Seq::<Cell>::empty().map_values(|cell: Cell| cell.ch) == Seq::<char>::empty());
        }
    }
}

/// The text of a selection over several rows starts with the line of its first
/// row and a line feed; the text of the rest of the selection, from the start of
/// the next row on, follows.
///
/// The line is what the row shows from the first point to the right edge of the
/// grid, without the spaces at its end: it begins where the row's characters
/// begin, leaves out nothing but spaces behind its end, and does not end in one.
pub proof fn lemma_text_line_by_line(
    sel: Selection,
    rest: Selection,
    grid: GridView,
) -> (line: Seq<char>)
    requires
        sel.first().row < sel.last().row,
        rest.first().row == sel.first().row + 1,
        rest.first().col == 0,
        rest.last() == sel.last(),
        0 <= grid.cols,
    ensures
        ({
            let rows = grid.scrollback + grid.live;
            let row = sel.first().row as int;
            let from = sel.first().col as int;
            let to = if row < rows.len() && rows[row].len() < grid.cols {
                rows[row].len() as int
            } else {
                grid.cols
            };
            let chars = if row < rows.len() && from < to {
                visible_chars(rows[row].subrange(from, to))
            } else {
                seq![]
            };
            &&& line.is_prefix_of(chars)
            &&& forall|i: int| line.len() <= i < chars.len() ==> chars[i] == ' '
        }),
        line.len() > 0 ==> line.last() != ' ',
        sel.text(grid) == line.push('\n') + rest.text(grid),
{
    let row = sel.first().row as int;
    let chars = sel.row_chars(grid, row);
    let line = trim_spaces(chars);
    lemma_trim_spaces(chars);
    lemma_text_is_rows(sel, grid);
    lemma_text_is_rows(rest, grid);
    lemma_first_line_splits_off(sel, rest, grid, sel.last().row as int);
    let last = sel.last().row as int;
    assert(sel.row_chars(grid, last) == rest.row_chars(grid, last));
    assert(sel.text(grid) == line.push('\n') + rest.text(grid));
    line
}

proof fn lemma_first_line_splits_off(sel: Selection, rest: Selection, grid: GridView, until: int)
    requires
        sel.first().row < until <= sel.last().row,
        rest.first().row == sel.first().row + 1,
        rest.first().col == 0,
        rest.last() == sel.last(),
    ensures
        sel.text_above(grid, until) == trim_spaces(
            sel.row_chars(grid, sel.first().row as int),
        ).push('\n') + rest.text_above(grid, until),
    decreases until - sel.first().row,
{
    let row = sel.first().row as int;
    if until == row + 1 {
        assert(sel.text_above(grid, row) == Seq::<char>::empty());
        assert(rest.text_above(grid, until) == Seq::<char>::empty());
        assert(sel.text_above(grid, until) == trim_spaces(sel.row_chars(grid, row)).push('\n'));
    } else {
        lemma_first_line_splits_off(sel, rest, grid, until - 1);
        assert(sel.row_chars(grid, until - 1) == rest.row_chars(grid, until - 1));
        assert(sel.text_above(grid, until) == trim_spaces(sel.row_chars(grid, row)).push('\n')
            + rest.text_above(grid, until));
    }
}

} // verus!
