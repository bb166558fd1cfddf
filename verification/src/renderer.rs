//! What the renderer decides about a frame: the size of the grid that fits the
//! surface, where rows stand, and which rows have to be shaped again.
//!
//! The grid is drawn as one text buffer per row. A row is shaped again only
//! when the hash of its cells differs from that of the previous frame.
use crate::grid::{visible_chars, Cell, Grid, GridView, WIDE_CONT};
use std::collections::hash_map::DefaultHasher;
use std::hash::Hasher;
use vstd::bytes::{spec_u16_to_le_bytes, spec_u32_to_le_bytes, u16_to_le_bytes, u32_to_le_bytes};
use vstd::prelude::*;
use vstd::std_specs::hash::DefaultHasherAdditionalSpecFns;

verus! {

/// The height of a row, in physical pixels.
pub const LINE_HEIGHT: u32 = 22;

/// The width of a cell, in physical pixels.
pub const CELL_WIDTH: u32 = 10;

/// The distance between the grid and the left and right edges, in physical
/// pixels.
pub const PAD_X: u32 = 16;

/// The distance between the grid and the top and bottom edges, in physical
/// pixels.
pub const PAD_Y: u32 = 16;

/// What stands in place of a row's hash until the frame that shapes it first.
pub const UNSHAPED: u64 = 0xffff_ffff_ffff_ffff;

/// The bytes of a cell that its row's hash is made from.
pub open spec fn cell_bytes(cell: Cell) -> Seq<u8> {
    spec_u32_to_le_bytes(cell.ch as u32) + spec_u32_to_le_bytes(cell.fg) + spec_u32_to_le_bytes(
        cell.bg,
    ) + spec_u16_to_le_bytes(cell.attrs)
}

/// The writes that a row's hash is made from, one for each cell.
pub open spec fn row_writes(row: Seq<Cell>) -> Seq<Seq<u8>> {
    row.map_values(|cell: Cell| cell_bytes(cell))
}

/// The hash of a row.
pub open spec fn row_hash_spec(row: Seq<Cell>) -> u64 {
    DefaultHasher::spec_finish(row_writes(row))
}

fn encode_cell(cell: &Cell) -> (bytes: Vec<u8>)
    ensures
        bytes@ == cell_bytes(*cell),
{
    let mut bytes = u32_to_le_bytes(cell.ch as u32);
    let mut fg = u32_to_le_bytes(cell.fg);
    let mut bg = u32_to_le_bytes(cell.bg);
    let mut attrs = u16_to_le_bytes(cell.attrs);
    bytes.append(&mut fg);
    bytes.append(&mut bg);
    bytes.append(&mut attrs);
    bytes
}

/// Hashes a row, with every cell's character, colours and attributes.
pub fn row_hash(row: &[Cell]) -> (hash: u64)
    ensures
        hash == row_hash_spec(row@),
        hash == DefaultHasher::spec_finish(row_writes(row@)),
{
    let mut hasher = DefaultHasher::new();
    let mut i: usize = 0;
    assert(row_writes(row@.take(0)) == Seq::<Seq<u8>>::empty());
    while i < row.len()
        invariant
            i <= row.len(),
            hasher@ == row_writes(row@.take(i as int)),
        decreases row.len() - i,
    {
        let bytes = encode_cell(&row[i]);
        hasher.write(bytes.as_slice());
        assert(row_writes(row@.take(i + 1)) == row_writes(row@.take(i as int)).push(
            cell_bytes(row@[i as int]),
        ));
        i += 1;
    }
    assert(row@.take(i as int) == row@);
    hasher.finish()
}

/// The cells that a view row shows; no cells where it lies outside the grid.
pub open spec fn shown_row(grid: GridView, view_row: int, scroll_offset: int) -> Seq<Cell> {
    match grid.row_at(view_row, scroll_offset) {
        Some(cells) => cells,
        None => seq![],
    }
}

/// The cells that the view shows, row by row.
pub open spec fn shown_rows(grid: GridView, scroll_offset: int) -> Seq<Seq<Cell>> {
    Seq::new(grid.live.len(), |view_row: int| shown_row(grid, view_row, scroll_offset))
}

/// The hashes of a list of rows.
pub open spec fn row_hashes(rows: Seq<Seq<Cell>>) -> Seq<u64> {
    rows.map_values(|row: Seq<Cell>| row_hash_spec(row))
}

/// Among the first `count` rows, those whose hash is not the cached one, in
/// order, each with the text it now shows.
pub open spec fn stale_rows(cached: Seq<u64>, shown: Seq<Seq<Cell>>, count: int) -> Seq<
    (int, Seq<char>),
>
    decreases count,
{
    if count <= 0 {
        seq![]
    } else if cached[count - 1] != row_hash_spec(shown[count - 1]) {
        stale_rows(cached, shown, count - 1).push((count - 1, visible_chars(shown[count - 1])))
    } else {
        stale_rows(cached, shown, count - 1)
    }
}

/// The number of cells that fit into an extent between its two margins: at
/// least one, and at most what 16 bits hold.
pub open spec fn fitting_cells(extent: int, pad: int, cell: int) -> int {
    let room = if extent > 2 * pad {
        extent - 2 * pad
    } else {
        0
    };
    if room / cell < 1 {
        1
    } else if room / cell > 0xffff {
        0xffff
    } else {
        room / cell
    }
}

fn fit_cells(extent: u32, pad: u32, cell: u32) -> (count: u16)
    requires
        0 < cell,
        2 * pad <= u32::MAX,
    ensures
        count == fitting_cells(extent as int, pad as int, cell as int),
{
    let room: u32 = extent.saturating_sub(2 * pad);
    let count: u32 = room / cell;
    if count < 1 {
        1
    } else if count > 0xffff {
        0xffff
    } else {
        count as u16
    }
}

/// A row to shape again, with the text that it shows.
pub struct RowUpdate {
    pub row: usize,
    pub text: String,
}

/// What a frame changes in the row buffers.
pub struct FrameUpdate {
    /// Whether all row buffers are made anew, one for each row of the grid.
    pub rebuild: bool,
    /// The rows to shape again, from top to bottom.
    pub rows: Vec<RowUpdate>,
}

impl View for RowUpdate {
    type V = (int, Seq<char>);

    open spec fn view(&self) -> (int, Seq<char>) {
        (self.row as int, self.text@)
    }
}

impl FrameUpdate {
    /// The rows to shape again, each with its text.
    pub open spec fn row_texts(self) -> Seq<(int, Seq<char>)> {
        self.rows@.map_values(|update: RowUpdate| update@)
    }
}

/// The state of a renderer between frames.
pub struct Renderer {
    /// The size of the surface, in physical pixels.
    pub width: u32,
    pub height: u32,
    /// The hash of each row as it was last shaped.
    pub row_hashes: Vec<u64>,
    /// The size of the grid that the row buffers were made for.
    pub last_grid_rows: usize,
    pub last_grid_cols: usize,
}

impl Renderer {
    /// There is one hash for each row of the last grid.
    pub open spec fn wf(self) -> bool {
        self.row_hashes@.len() == self.last_grid_rows
    }

    /// Whether a grid has another size than the last one.
    pub open spec fn size_changed(self, grid: GridView) -> bool {
        grid.live.len() != self.last_grid_rows || grid.cols != self.last_grid_cols
    }

    /// Whether the last frame was that of a grid, scrolled by an offset.
    pub open spec fn remembers(self, grid: GridView, scroll_offset: int) -> bool {
        &&& self.last_grid_rows == grid.live.len()
        &&& self.last_grid_cols == grid.cols
        &&& self.row_hashes@ == row_hashes(shown_rows(grid, scroll_offset))
    }

    /// The rows that a frame shapes, each with its text: every row where the
    /// size has changed, and otherwise those whose hash has changed.
    pub open spec fn frame_rows(self, grid: GridView, scroll_offset: int) -> Seq<
        (int, Seq<char>),
    > {
        if self.size_changed(grid) {
            Seq::new(
                grid.live.len(),
                |row: int| (row, visible_chars(shown_row(grid, row, scroll_offset))),
            )
        } else {
            stale_rows(
                self.row_hashes@,
                shown_rows(grid, scroll_offset),
                grid.live.len() as int,
            )
        }
    }

    /// The state for a window of the given size. A surface has at least one
    /// pixel each way.
    pub fn new(width: u32, height: u32) -> (renderer: Renderer)
        ensures
            renderer.wf(),
            renderer.width == (if width >= 1 {
                width
            } else {
                1
            }),
            renderer.height == (if height >= 1 {
                height
            } else {
                1
            }),
            renderer.row_hashes@ == Seq::<u64>::empty(),
            renderer.last_grid_rows == 0,
            renderer.last_grid_cols == 0,
    {
        Renderer {
            width: if width >= 1 {
                width
            } else {
                1
            },
            height: if height >= 1 {
                height
            } else {
                1
            },
            row_hashes: Vec::new(),
            last_grid_rows: 0,
            last_grid_cols: 0,
        }
    }

    /// The rows and columns of the grid that fits the surface.
    pub fn grid_dimensions(&self) -> (size: (u16, u16))
        ensures
            size.0 == fitting_cells(self.height as int, PAD_Y as int, LINE_HEIGHT as int),
            size.1 == fitting_cells(self.width as int, PAD_X as int, CELL_WIDTH as int),
    {
        let cols: u16 = fit_cells(self.width, PAD_X, CELL_WIDTH);
        let rows: u16 = fit_cells(self.height, PAD_Y, LINE_HEIGHT);
        (rows, cols)
    }

    /// Takes on a new window size, unless the window has no area. Tells whether
    /// the surface has to be configured again.
    pub fn resize(&mut self, width: u32, height: u32) -> (changed: bool)
        ensures
            changed == (width != 0 && height != 0),
            *final(self) == (if width != 0 && height != 0 {
                Renderer { width, height, ..*old(self) }
            } else {
                *old(self)
            }),
    {
        if width == 0 || height == 0 {
            return false;
        }
        self.width = width;
        self.height = height;
        true
    }

    /// Starts a frame: where the size of the grid has changed, the hashes are
    /// made anew, one for each row.
    fn begin_frame(&mut self, rows: usize, cols: usize) -> (rebuild: bool)
        requires
            old(self).wf(),
        ensures
            final(self).wf(),
            rebuild == (rows != old(self).last_grid_rows || cols != old(self).last_grid_cols),
            final(self).width == old(self).width,
            final(self).height == old(self).height,
            final(self).last_grid_rows == rows,
            final(self).last_grid_cols == cols,
            final(self).row_hashes@ == (if rebuild {
                Seq::new(rows as nat, |row: int| UNSHAPED)
            } else {
                old(self).row_hashes@
            }),
    {
        if rows == self.last_grid_rows && cols == self.last_grid_cols {
            return false;
        }
        let mut hashes: Vec<u64> = Vec::new();
        let mut row: usize = 0;
        while row < rows
            invariant
                row <= rows,
                hashes@ == Seq::new(row as nat, |row: int| UNSHAPED),
            decreases rows - row,
        {
            hashes.push(UNSHAPED);
            row += 1;
        }
        self.row_hashes = hashes;
        self.last_grid_rows = rows;
        self.last_grid_cols = cols;
        true
    }

    /// Decides what a frame has to shape again, and remembers the hashes of all
    /// rows for the next frame.
    pub fn render(&mut self, grid: &Grid, scroll_offset: usize) -> (frame: FrameUpdate)
        requires
            old(self).wf(),
        ensures
            final(self).wf(),
            final(self).width == old(self).width,
            final(self).height == old(self).height,
            final(self).remembers(grid@, scroll_offset as int),
            frame.rebuild == old(self).size_changed(grid@),
            frame.rebuild <==> grid@.live.len() != old(self).last_grid_rows || grid@.cols != old(
                self,
            ).last_grid_cols,
            frame.row_texts() == old(self).frame_rows(grid@, scroll_offset as int),
    {
        let rows: usize = grid.rows();
        let cols: usize = grid.cols();
        let rebuild = self.begin_frame(rows, cols);
        let ghost shown = shown_rows(grid@, scroll_offset as int);
        let mut updates: Vec<RowUpdate> = Vec::new();
        let ghost mut texts: Seq<(int, Seq<char>)> = seq![];
        let mut view_row: usize = 0;
        while view_row < rows
            invariant
                view_row <= rows,
                rows == grid@.live.len(),
                shown == shown_rows(grid@, scroll_offset as int),
                rebuild == old(self).size_changed(grid@),
                self.row_hashes@.len() == rows,
                self.last_grid_rows == rows,
                self.last_grid_cols == cols,
                self.width == old(self).width,
                self.height == old(self).height,
                forall|i: int| 0 <= i < view_row ==> self.row_hashes@[i] == row_hash_spec(shown[i]),
                !rebuild ==> forall|i: int|
                    view_row <= i < rows ==> self.row_hashes@[i] == old(self).row_hashes@[i],
                rebuild ==> texts == Seq::new(
                    view_row as nat,
                    |row: int| (row, visible_chars(shown_row(grid@, row, scroll_offset as int))),
                ),
                !rebuild ==> texts == stale_rows(old(self).row_hashes@, shown, view_row as int),
                texts == updates@.map_values(|update: RowUpdate| update@),
            decreases rows - view_row,
        {
            let empty: [Cell; 0] = [];
            let row: &[Cell] = match grid.row_at(view_row, scroll_offset) {
                Some(cells) => cells,
                None => &empty,
            };
            assert(row@ == shown[view_row as int]);
            let hash: u64 = row_hash(row);
            if rebuild || self.row_hashes[view_row] != hash {
                let update = RowUpdate { row: view_row, text: row_text(row) };
                proof {
                    texts = texts.push(update@);
                }
                updates.push(update);
                self.row_hashes.set(view_row, hash);
            }
            view_row += 1;
        }
        assert(self.row_hashes@ == row_hashes(shown));
        FrameUpdate { rebuild, rows: updates }
    }
}

/// The text that a row shows.
pub fn row_text(row: &[Cell]) -> (text: String)
    ensures
        text@ == visible_chars(row@),
{
    let mut text = String::new();
    let mut i: usize = 0;
    reveal(Seq::filter);
    while i < row.len()
        invariant
            i <= row.len(),
            text@ == visible_chars(row@.take(i as int)),
        decreases row.len() - i,
    {
        proof {
            reveal(Seq::filter);
            let chars = row@.take(i + 1).map_values(|cell: Cell| cell.ch);
            assert(chars.drop_last() == row@.take(i as int).map_values(|cell: Cell| cell.ch));
        }
        if row[i].ch != WIDE_CONT {
            text.push(row[i].ch);
        }
        i += 1;
    }
    assert(row@.take(i as int) == row@);
    text
}

/// The upper edge of a row of the view, in physical pixels.
pub open spec fn row_top(row: int) -> int {
    PAD_Y + row * LINE_HEIGHT
}

/// The top left corner of a row of the view, in physical pixels.
pub fn row_origin(row: usize) -> (corner: (u128, u128))
    ensures
        corner.0 == PAD_X,
        corner.1 == row_top(row as int),
{
    assert(row * LINE_HEIGHT <= 0xffff_ffff_ffff_ffff * 22) by (nonlinear_arith)
        requires
            row <= 0xffff_ffff_ffff_ffff,
            LINE_HEIGHT == 22,
    ;
    (PAD_X as u128, PAD_Y as u128 + row as u128 * LINE_HEIGHT as u128)
}

/// The width and height of a row's buffer, in physical pixels: twice the room
/// that the cells need.
pub fn row_buffer_size(cols: usize) -> (size: (u128, u128))
    ensures
        size.0 == cols * CELL_WIDTH * 2,
        size.1 == LINE_HEIGHT * 2,
{
    assert(cols * CELL_WIDTH <= 0xffff_ffff_ffff_ffff * 10) by (nonlinear_arith)
        requires
            cols <= 0xffff_ffff_ffff_ffff,
            CELL_WIDTH == 10,
    ;
    (cols as u128 * CELL_WIDTH as u128 * 2, LINE_HEIGHT as u128 * 2)
}

/// Picks the surface format to draw with: the first one in sRGB, or else the
/// first one. `srgb` tells for each format whether it is in sRGB.
pub fn preferred_format(srgb: &Vec<bool>) -> (index: usize)
    requires
        srgb@.len() > 0,
    ensures
        index < srgb@.len(),
        if srgb@.contains(true) {
            srgb@[index as int] && forall|i: int| 0 <= i < index ==> !#[trigger] srgb@[i]
        } else {
            index == 0
        },
{
    let mut i: usize = 0;
    while i < srgb.len()
        invariant
            i <= srgb@.len(),
            forall|j: int| 0 <= j < i ==> !#[trigger] srgb@[j],
        decreases srgb@.len() - i,
    {
        if srgb[i] {
            return i;
        }
        i += 1;
    }
    0
}

/// A row is shaped again exactly when its hash is not the cached one, and then
/// with the text that it shows.
pub proof fn lemma_stale_exactly_when_hash_differs(
    cached: Seq<u64>,
    shown: Seq<Seq<Cell>>,
    count: int,
    row: int,
    text: Seq<char>,
)
    ensures
        stale_rows(cached, shown, count).contains((row, text)) <==> {
            &&& 0 <= row < count
            &&& cached[row] != row_hash_spec(shown[row])
            &&& text == visible_chars(shown[row])
        },
    decreases count,
{
    if count > 0 {
        lemma_stale_exactly_when_hash_differs(cached, shown, count - 1, row, text);
        let before = stale_rows(cached, shown, count - 1);
        let now = stale_rows(cached, shown, count);
        if cached[count - 1] != row_hash_spec(shown[count - 1]) {
            let last = (count - 1, visible_chars(shown[count - 1]));
            assert(now[before.len() as int] == last);
            if before.contains((row, text)) {
                let i = choose|i: int| 0 <= i < before.len() && before[i] == (row, text);
                assert(now[i] == (row, text));
            }
            if now.contains((row, text)) && (row, text) != last {
                let i = choose|i: int| 0 <= i < now.len() && now[i] == (row, text);
                assert(before[i] == (row, text));
            }
        }
    }
}

/// A row that shows the same cells as in the previous frame is not shaped
/// again, however the view was scrolled in either, while the size stays.
pub proof fn lemma_unchanged_row_is_not_shaped(
    renderer: Renderer,
    previous: GridView,
    previous_offset: int,
    grid: GridView,
    scroll_offset: int,
    row: int,
    text: Seq<char>,
)
    requires
        renderer.remembers(previous, previous_offset),
        previous.live.len() == grid.live.len(),
        previous.cols == grid.cols,
        0 <= row < grid.live.len(),
        shown_row(grid, row, scroll_offset) == shown_row(previous, row, previous_offset),
    ensures
        !renderer.frame_rows(grid, scroll_offset).contains((row, text)),
{
    lemma_stale_exactly_when_hash_differs(
        renderer.row_hashes@,
        shown_rows(grid, scroll_offset),
        grid.live.len() as int,
        row,
        text,
    );
}

/// A frame that shows what the previous one showed makes no buffer and shapes
/// nothing again.
pub proof fn lemma_repeated_frame_changes_nothing(
    renderer: Renderer,
    grid: GridView,
    scroll_offset: int,
)
    requires
        renderer.remembers(grid, scroll_offset),
    ensures
        !renderer.size_changed(grid),
        renderer.frame_rows(grid, scroll_offset) == Seq::<(int, Seq<char>)>::empty(),
{
    lemma_no_stale_rows(shown_rows(grid, scroll_offset), grid.live.len() as int);
}

proof fn lemma_no_stale_rows(shown: Seq<Seq<Cell>>, count: int)
    requires
        count <= shown.len(),
    ensures
        stale_rows(row_hashes(shown), shown, count) == Seq::<(int, Seq<char>)>::empty(),
    decreases count,
{
    if count > 0 {
        lemma_no_stale_rows(shown, count - 1);
    }
}

/// The first frame, and each one after a change of size, shapes every row.
pub proof fn lemma_first_frame_shapes_every_row(
    renderer: Renderer,
    grid: GridView,
    scroll_offset: int,
)
    requires
        renderer.size_changed(grid),
    ensures
        renderer.frame_rows(grid, scroll_offset) == Seq::new(
            grid.live.len(),
            |row: int| (row, visible_chars(shown_row(grid, row, scroll_offset))),
        ),
{
}

/// The hash of a row is made from all that its cells hold: rows that differ in
/// a character, a colour or an attribute write different bytes.
pub proof fn lemma_row_writes_tell_rows_apart(a: Seq<Cell>, b: Seq<Cell>)
    requires
        row_writes(a) == row_writes(b),
    ensures
        a == b,
{
    assert(a.len() == row_writes(a).len());
    assert(b.len() == row_writes(b).len());
    assert forall|i: int| 0 <= i < a.len() implies a[i] == b[i] by {
        assert(row_writes(a)[i] == cell_bytes(a[i]));
        assert(row_writes(b)[i] == cell_bytes(b[i]));
        lemma_cell_bytes_tell_cells_apart(a[i], b[i]);
    }
    assert(a == b);
}

proof fn lemma_cell_bytes_tell_cells_apart(a: Cell, b: Cell)
    requires
        cell_bytes(a) == cell_bytes(b),
    ensures
        a == b,
{
    vstd::bytes::lemma_auto_spec_u32_to_from_le_bytes();
    vstd::bytes::lemma_auto_spec_u16_to_from_le_bytes();
    let x = cell_bytes(a);
    let y = cell_bytes(b);
    assert(x.subrange(0, 4) == spec_u32_to_le_bytes(a.ch as u32));
    assert(y.subrange(0, 4) == spec_u32_to_le_bytes(b.ch as u32));
    assert(x.subrange(4, 8) == spec_u32_to_le_bytes(a.fg));
    assert(y.subrange(4, 8) == spec_u32_to_le_bytes(b.fg));
    assert(x.subrange(8, 12) == spec_u32_to_le_bytes(a.bg));
    assert(y.subrange(8, 12) == spec_u32_to_le_bytes(b.bg));
    assert(x.subrange(12, 14) == spec_u16_to_le_bytes(a.attrs));
    assert(y.subrange(12, 14) == spec_u16_to_le_bytes(b.attrs));
}

/// The grid fits between the margins of the surface wherever a single cell
/// does, and no larger one would, up to the largest count of cells.
pub proof fn lemma_grid_fits_surface(extent: int, pad: int, cell: int)
    requires
        0 <= pad,
        0 < cell,
        extent >= 2 * pad + cell,
    ensures
        fitting_cells(extent, pad, cell) * cell + 2 * pad <= extent,
        fitting_cells(extent, pad, cell) < 0xffff ==> extent < (fitting_cells(extent, pad, cell)
            + 1) * cell + 2 * pad,
{
    let room = extent - 2 * pad;
    vstd::arithmetic::div_mod::lemma_fundamental_div_mod(room, cell);
    vstd::arithmetic::div_mod::lemma_mod_bound(room, cell);
    let q = room / cell;
    let count = fitting_cells(extent, pad, cell);
    assert(q >= 1) by (nonlinear_arith)
        requires
            room == cell * q + room % cell,
            0 <= room % cell < cell,
            room >= cell,
            cell > 0,
    ;
    assert(count * cell <= q * cell) by (nonlinear_arith)
        requires
            count <= q,
            cell > 0,
    ;
    assert(q * cell == cell * q) by (nonlinear_arith);
    assert((q + 1) * cell == cell * q + cell) by (nonlinear_arith);
}

/// Rows of the view stand directly below each other.
pub proof fn lemma_rows_are_aligned(row: int)
    ensures
        row_top(row + 1) == row_top(row) + LINE_HEIGHT,
{
}

/// The hash of a row is the hasher's result over the bytes of all its cells, one
/// write for each cell in order. Two rows with the same writes are the same row
/// (see [`lemma_row_writes_tell_rows_apart`]).
pub proof fn lemma_hash_takes_in_whole_row(row: Seq<Cell>, other: Seq<Cell>)
    ensures
        row_hash_spec(row) == DefaultHasher::spec_finish(row_writes(row)),
        row_writes(row).len() == row.len(),
        row_writes(row + other) == row_writes(row) + row_writes(other),
        row_writes(row) == row_writes(other) ==> row == other,
{
    assert(row_writes(row + other) == row_writes(row) + row_writes(other));
    if row_writes(row) == row_writes(other) {
        lemma_row_writes_tell_rows_apart(row, other);
    }
}

/// A view scrolled back by `offset` rows shows the newest `offset` rows of the
/// scrollback above the live screen, as many rows as the live screen has.
pub proof fn lemma_shown_rows(grid: GridView, view_row: int, offset: int)
    requires
        0 <= view_row < grid.live.len(),
        0 <= offset,
    ensures
        shown_rows(grid, offset).len() == grid.live.len(),
        shown_rows(grid, offset)[view_row] == shown_row(grid, view_row, offset),
        offset <= grid.scrollback.len() && view_row < offset ==> shown_row(grid, view_row, offset)
            == grid.scrollback[grid.scrollback.len() - offset + view_row],
        offset <= grid.scrollback.len() && offset <= view_row ==> shown_row(grid, view_row, offset)
            == grid.live[view_row - offset],
        offset > grid.scrollback.len() ==> shown_row(grid, view_row, offset) == shown_row(
            grid,
            view_row,
            grid.scrollback.len() as int,
        ),
{
}

/// The rows to shape again come from top to bottom, each once.
pub proof fn lemma_stale_rows_in_order(cached: Seq<u64>, shown: Seq<Seq<Cell>>, count: int)
    ensures
        ({
            let stale = stale_rows(cached, shown, count);
            &&& forall|i: int| 0 <= i < stale.len() ==> 0 <= (#[trigger] stale[i]).0 < count
            &&& forall|i: int, j: int|
                0 <= i < j < stale.len() ==> (#[trigger] stale[i]).0 < (#[trigger] stale[j]).0
        }),
    decreases count,
{
    if count > 0 {
        lemma_stale_rows_in_order(cached, shown, count - 1);
        let before = stale_rows(cached, shown, count - 1);
        let stale = stale_rows(cached, shown, count);
        assert forall|i: int| 0 <= i < stale.len() implies 0 <= (#[trigger] stale[i]).0 < count by {
            if i < before.len() {
                assert(stale[i] == before[i]);
            }
        }
        assert forall|i: int, j: int| 0 <= i < j < stale.len() implies (#[trigger] stale[i]).0 < (
        #[trigger] stale[j]).0 by {
            assert(stale[i] == before[i]);
            if j < before.len() {
                assert(stale[j] == before[j]);
            }
        }
    }
}

/// A frame shapes a row exactly when the grid has another size than the one of
/// the last frame, or the bytes of the cells that the row now shows hash to
/// something else than the hash kept for it. The text is that of those cells.
pub proof fn lemma_frame_shapes_what_changed(
    renderer: Renderer,
    grid: GridView,
    scroll_offset: int,
    row: int,
    text: Seq<char>,
)
    ensures
        renderer.frame_rows(grid, scroll_offset).contains((row, text)) <==> {
            &&& 0 <= row < grid.live.len()
            &&& text == visible_chars(shown_row(grid, row, scroll_offset))
            &&& {
                ||| grid.live.len() != renderer.last_grid_rows
                ||| grid.cols != renderer.last_grid_cols
                ||| renderer.row_hashes@[row] != DefaultHasher::spec_finish(
                    row_writes(shown_row(grid, row, scroll_offset)),
                )
            }
        },
{
    lemma_stale_exactly_when_hash_differs(
        renderer.row_hashes@,
        shown_rows(grid, scroll_offset),
        grid.live.len() as int,
        row,
        text,
    );
    if renderer.size_changed(grid) {
        let frame = renderer.frame_rows(grid, scroll_offset);
        if 0 <= row < grid.live.len() {
            assert(frame[row] == (row, visible_chars(shown_row(grid, row, scroll_offset))));
        }
    }
}

/// The rows that a frame shapes come from top to bottom, each once.
pub proof fn lemma_frame_rows_in_order(renderer: Renderer, grid: GridView, scroll_offset: int)
    ensures
        ({
            let frame = renderer.frame_rows(grid, scroll_offset);
            forall|i: int, j: int|
                0 <= i < j < frame.len() ==> (#[trigger] frame[i]).0 < (#[trigger] frame[j]).0
        }),
{
    lemma_stale_rows_in_order(
        renderer.row_hashes@,
        shown_rows(grid, scroll_offset),
        grid.live.len() as int,
    );
}

/// What is kept of a frame is the size of its grid and the hash of each row that
/// it showed.
pub proof fn lemma_remembered_frame(
    renderer: Renderer,
    grid: GridView,
    scroll_offset: int,
    row: int,
)
    requires
        renderer.remembers(grid, scroll_offset),
    ensures
        renderer.last_grid_rows == grid.live.len(),
        renderer.last_grid_cols == grid.cols,
        renderer.row_hashes@.len() == grid.live.len(),
        0 <= row < grid.live.len() ==> renderer.row_hashes@[row] == DefaultHasher::spec_finish(
            row_writes(shown_row(grid, row, scroll_offset)),
        ),
{
}

/// A row whose cells have changed since the last frame is shaped again with its
/// new text, unless both rows have the same hash.
pub proof fn lemma_changed_row_is_shaped(
    renderer: Renderer,
    previous: GridView,
    previous_offset: int,
    grid: GridView,
    scroll_offset: int,
    row: int,
)
    requires
        renderer.remembers(previous, previous_offset),
        0 <= row < grid.live.len(),
        previous.live.len() != grid.live.len() || previous.cols != grid.cols
            || DefaultHasher::spec_finish(row_writes(shown_row(previous, row, previous_offset)))
            != DefaultHasher::spec_finish(row_writes(shown_row(grid, row, scroll_offset))),
    ensures
        renderer.frame_rows(grid, scroll_offset).contains(
            (row, visible_chars(shown_row(grid, row, scroll_offset))),
        ),
{
    lemma_frame_shapes_what_changed(
        renderer,
        grid,
        scroll_offset,
        row,
        visible_chars(shown_row(grid, row, scroll_offset)),
    );
}

/// The rows of a frame are listed with their numbers and the characters of their
/// texts.
pub proof fn lemma_frame_contents(frame: FrameUpdate, i: int)
    ensures
        frame.row_texts().len() == frame.rows@.len(),
        0 <= i < frame.rows@.len() ==> frame.row_texts()[i] == (
            frame.rows@[i].row as int,
            frame.rows@[i].text@,
        ),
{
}

/// There is always room for one cell, and never for more than 16 bits count.
pub proof fn lemma_grid_has_a_cell(extent: int, pad: int, cell: int)
    requires
        0 <= pad,
        0 < cell,
    ensures
        1 <= fitting_cells(extent, pad, cell) <= 0xffff,
        extent < 2 * pad + cell ==> fitting_cells(extent, pad, cell) == 1,
{
    if extent < 2 * pad + cell && extent > 2 * pad {
        vstd::arithmetic::div_mod::lemma_basic_div(extent - 2 * pad, cell);
    } else {
        vstd::arithmetic::div_mod::lemma_div_basics(cell);
    }
}

/// The grid of a surface leaves 16 pixels free on each side, and gives each cell
/// 10 by 22 pixels: it is the largest that fits, wherever one cell does.
pub proof fn lemma_grid_dimensions(width: int, height: int)
    ensures
        ({
            let cols = fitting_cells(width, PAD_X as int, CELL_WIDTH as int);
            let rows = fitting_cells(height, PAD_Y as int, LINE_HEIGHT as int);
            &&& width >= 42 ==> cols * 10 + 32 <= width
            &&& width >= 42 && cols < 0xffff ==> width < (cols + 1) * 10 + 32
            &&& height >= 54 ==> rows * 22 + 32 <= height
            &&& height >= 54 && rows < 0xffff ==> height < (rows + 1) * 22 + 32
        }),
{
}

/// Rows stand below each other from 16 pixels on, 22 pixels apart.
pub proof fn lemma_row_tops(row: int)
    ensures
        row_top(0) == 16,
        row_top(row + 1) - row_top(row) == 22,
{
}

} // verus!
