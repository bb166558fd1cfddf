//! The terminal grid, as far as selection, rendering and dumping read it.
//!
//! Rows have two numberings. **Absolute** rows start at the oldest row of the
//! scrollback and run through the live screen. **View** rows start at the top of
//! the window, which shows the live screen moved up by the scroll offset.
use vstd::prelude::*;

verus! {

/// The character of a cell that continues a wide character to its left.
pub const WIDE_CONT: char = '\0';

/// One character cell: the character, its packed colours and its attribute
/// bits.
#[derive(Debug, Clone, Copy, PartialEq, Eq, Structural)]
pub struct Cell {
    pub ch: char,
    pub fg: u32,
    pub bg: u32,
    pub attrs: u16,
}

/// A position on the live screen.
#[derive(Debug, Clone, Copy, PartialEq, Eq, Structural)]
pub struct Cursor {
    pub row: usize,
    pub col: usize,
}

/// The screen of a terminal and the rows that have scrolled off its top.
pub struct Grid {
    /// The width of the live screen, in cells.
    pub cols: usize,
    /// The rows that have scrolled off, oldest first, of any width.
    pub scrollback: Vec<Vec<Cell>>,
    /// The rows of the live screen, topmost first.
    pub live: Vec<Vec<Cell>>,
    /// The cursor on the live screen.
    pub cursor: Cursor,
}

/// The contents of a [`Grid`].
pub struct GridView {
    pub cols: int,
    pub scrollback: Seq<Seq<Cell>>,
    pub live: Seq<Seq<Cell>>,
    pub cursor: Cursor,
}

/// The contents of a list of rows.
pub open spec fn row_contents(rows: Seq<Vec<Cell>>) -> Seq<Seq<Cell>> {
    rows.map_values(|row: Vec<Cell>| row@)
}

/// The absolute row that a view row shows. Scrolling stops at the oldest row of
/// the scrollback.
pub open spec fn view_to_absolute(view_row: int, scroll_offset: int, scrollback_len: int) -> int {
    let offset = if scroll_offset <= scrollback_len {
        scroll_offset
    } else {
        scrollback_len
    };
    scrollback_len - offset + view_row
}

/// The characters of a stretch of cells, without the continuations of wide
/// characters.
pub open spec fn visible_chars(cells: Seq<Cell>) -> Seq<char> {
    cells.map_values(|cell: Cell| cell.ch).filter(|ch: char| ch != WIDE_CONT)
}

impl View for Grid {
    type V = GridView;

    open spec fn view(&self) -> GridView {
        GridView {
            cols: self.cols as int,
            scrollback: row_contents(self.scrollback@),
            live: row_contents(self.live@),
            cursor: self.cursor,
        }
    }
}

impl GridView {
    /// Every row of the live screen has the width of the screen.
    pub open spec fn wf(self) -> bool {
        forall|row: int| 0 <= row < self.live.len() ==> (#[trigger] self.live[row]).len() == self.cols
    }

    /// All rows in absolute order.
    pub open spec fn absolute(self) -> Seq<Seq<Cell>> {
        self.scrollback + self.live
    }

    /// An absolute row, where it exists.
    pub open spec fn absolute_row(self, row: int) -> Option<Seq<Cell>> {
        if 0 <= row < self.absolute().len() {
            Some(self.absolute()[row])
        } else {
            None
        }
    }

    /// The row of cells that a view row shows, where there is one.
    pub open spec fn row_at(self, view_row: int, scroll_offset: int) -> Option<Seq<Cell>> {
        self.absolute_row(view_to_absolute(view_row, scroll_offset, self.scrollback.len() as int))
    }

    /// The character of the cell at an absolute row, where there is a cell.
    pub open spec fn char_at(self, row: int, col: int) -> Option<char> {
        match self.absolute_row(row) {
            Some(cells) => if 0 <= col < cells.len() {
                Some(cells[col].ch)
            } else {
                None
            },
            None => None,
        }
    }
}

impl Grid {
    /// Puts a grid together. `None` where a row of the live screen does not
    /// have `cols` cells.
    pub fn from_rows(
        cols: usize,
        scrollback: Vec<Vec<Cell>>,
        live: Vec<Vec<Cell>>,
        cursor: Cursor,
    ) -> (grid: Option<Grid>)
        ensures
            grid == (if (Grid { cols, scrollback, live, cursor })@.wf() {
                Some(Grid { cols, scrollback, live, cursor })
            } else {
                None
            }),
    {
        let grid = Grid { cols, scrollback, live, cursor };
        let mut row: usize = 0;
        while row < grid.live.len()
            invariant
                row <= grid.live.len(),
                grid == (Grid { cols, scrollback, live, cursor }),
                forall|i: int| 0 <= i < row ==> (#[trigger] grid@.live[i]).len() == cols,
            decreases grid.live.len() - row,
        {
            assert(grid@.live[row as int] == grid.live@[row as int]@);
            if grid.live[row].len() != cols {
                return None;
            }
            row += 1;
        }
        Some(grid)
    }

    /// The height of the live screen.
    pub fn rows(&self) -> (rows: usize)
        ensures
            rows == self@.live.len(),
    {
        self.live.len()
    }

    /// The width of the live screen.
    pub fn cols(&self) -> (cols: usize)
        ensures
            cols == self@.cols,
    {
        self.cols
    }

    /// The number of rows that have scrolled off.
    pub fn scrollback_len(&self) -> (len: usize)
        ensures
            len == self@.scrollback.len(),
    {
        self.scrollback.len()
    }

    /// The cell at a position on the live screen.
    pub fn cell(&self, row: usize, col: usize) -> (cell: &Cell)
        requires
            row < self@.live.len(),
            col < self@.live[row as int].len(),
        ensures
            *cell == self@.live[row as int][col as int],
    {
        &self.live[row][col]
    }

    /// The row of cells that a view row shows.
    pub fn row_at(&self, view_row: usize, scroll_offset: usize) -> (row: Option<&[Cell]>)
        ensures
            match row {
                Some(cells) => self@.row_at(view_row as int, scroll_offset as int) == Some(cells@),
                None => self@.row_at(view_row as int, scroll_offset as int) is None,
            },
    {
        let scrolled: usize = self.scrollback.len();
        let offset: usize = if scroll_offset <= scrolled {
            scroll_offset
        } else {
            scrolled
        };
        if view_row < offset {
            let cells = self.scrollback[scrolled - offset + view_row].as_slice();
            Some(cells)
        } else if view_row - offset < self.live.len() {
            let cells = self.live[view_row - offset].as_slice();
            Some(cells)
        } else {
            None
        }
    }
}

/// Rows keep their absolute numbers when rows scroll from the live screen into
/// the scrollback and new rows appear below.
pub proof fn lemma_absolute_rows_keep_their_numbers(before: GridView, after: GridView, row: int)
    requires
        before.absolute().is_prefix_of(after.absolute()),
        0 <= row < before.absolute().len(),
    ensures
        after.absolute_row(row) == before.absolute_row(row),
{
}

/// The contents of a grid are those of its rows, cell by cell.
pub proof fn lemma_grid_contents(grid: Grid, row: int)
    ensures
        grid@.cols == grid.cols,
        grid@.cursor == grid.cursor,
        grid@.live.len() == grid.live@.len(),
        grid@.scrollback.len() == grid.scrollback@.len(),
        0 <= row < grid.live@.len() ==> grid@.live[row] == grid.live@[row]@,
        0 <= row < grid.scrollback@.len() ==> grid@.scrollback[row] == grid.scrollback@[row]@,
{
}

/// A grid is well formed exactly when no live row is longer or shorter than the
/// screen is wide.
pub proof fn lemma_well_formed(grid: GridView)
    ensures
        !grid.wf() <==> exists|row: int|
            0 <= row < grid.live.len() && (#[trigger] grid.live[row]).len() != grid.cols,
{
}

/// A view scrolled back by `offset` rows shows the newest `offset` rows of the
/// scrollback above the live screen, and nothing below the live screen.
pub proof fn lemma_scrolled_view(grid: GridView, view_row: int, offset: int)
    requires
        0 <= view_row,
        0 <= offset <= grid.scrollback.len(),
    ensures
        view_row < offset ==> grid.row_at(view_row, offset) == Some(
            grid.scrollback[grid.scrollback.len() - offset + view_row],
        ),
        offset <= view_row < offset + grid.live.len() ==> grid.row_at(view_row, offset) == Some(
            grid.live[view_row - offset],
        ),
        offset + grid.live.len() <= view_row ==> grid.row_at(view_row, offset) is None,
        view_to_absolute(view_row, offset, grid.scrollback.len() as int) == (
        grid.scrollback.len() - offset) + view_row,
{
}

/// Scrolling further back than the scrollback reaches shows the same as
/// scrolling to its oldest row.
pub proof fn lemma_scrolling_stops_at_oldest_row(grid: GridView, view_row: int, offset: int)
    requires
        offset >= grid.scrollback.len(),
    ensures
        grid.row_at(view_row, offset) == grid.row_at(view_row, grid.scrollback.len() as int),
        view_to_absolute(view_row, offset, grid.scrollback.len() as int) == view_row,
{
}

/// Absolute rows are those of the scrollback, then those of the live screen; a
/// cell outside of them has no character.
pub proof fn lemma_absolute_cells(grid: GridView, row: int, col: int)
    requires
        0 <= row,
        0 <= col,
    ensures
        row < grid.scrollback.len() ==> grid.char_at(row, col) == (if col
            < grid.scrollback[row].len() {
            Some(grid.scrollback[row][col].ch)
        } else {
            None
        }),
        0 <= row < grid.live.len() ==> grid.char_at(grid.scrollback.len() + row, col) == (if col
            < grid.live[row].len() {
            Some(grid.live[row][col].ch)
        } else {
            None
        }),
        row >= grid.live.len() ==> grid.char_at(grid.scrollback.len() + row, col) is None,
{
}

/// The characters of two stretches of cells follow each other; a single cell has
/// its character, and none where it continues a wide one. This tells the
/// characters of every stretch.
pub proof fn lemma_visible_characters(left: Seq<Cell>, right: Seq<Cell>, cell: Cell)
    ensures
        visible_chars(left + right) == visible_chars(left) + visible_chars(right),
        cell.ch != '\0' ==> visible_chars(seq![cell]) == seq![cell.ch],
        cell.ch == '\0' ==> visible_chars(seq![cell]) == Seq::<char>::empty(),
        visible_chars(Seq::<Cell>::empty()) == Seq::<char>::empty(),
{
    let keep = |ch: char| ch != WIDE_CONT;
    assert((left + right).map_values(|cell: Cell| cell.ch) == left.map_values(
        |cell: Cell| cell.ch,
    ) + right.map_values(|cell: Cell| cell.ch));
    Seq::filter_distributes_over_add(
        left.map_values(|cell: Cell| cell.ch),
        right.map_values(|cell: Cell| cell.ch),
        keep,
    );
    reveal_with_fuel(Seq::filter, 2);
    assert(seq![cell].map_values(|cell: Cell| cell.ch) == seq![cell.ch]);
    assert(seq![cell.ch].drop_last() == Seq::<char>::empty());
    assert(Seq::<Cell>::empty().map_values(|cell: Cell| cell.ch) == Seq::<char>::empty());
}

} // verus!
