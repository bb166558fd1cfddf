use purrtty::grid::{Cell, Cursor, Grid};
use purrtty::renderer::{
    preferred_format, row_buffer_size, row_hash, row_origin, row_text, FrameUpdate, Renderer,
};

fn styled(ch: char, fg: u32, bg: u32, attrs: u16) -> Cell {
    Cell { ch, fg, bg, attrs }
}

fn cells(text: &str) -> Vec<Cell> {
    text.chars().map(|ch| styled(ch, 7, 0, 0)).collect()
}

fn frame_grid(scrollback: &[&str], live: &[&str], cols: usize) -> Grid {
    Grid::from_rows(
        cols,
        scrollback.iter().map(|line| cells(line)).collect(),
        live.iter().map(|line| cells(line)).collect(),
        Cursor { row: 0, col: 0 },
    )
    .unwrap()
}

fn shaped(frame: &FrameUpdate) -> Vec<(usize, &str)> {
    frame.rows.iter().map(|update| (update.row, update.text.as_str())).collect()
}

/// The same size in 32-bit floating point.
fn float_dimensions(width: u32, height: u32) -> (u16, u16) {
    let w = (width as f32 - 2.0 * 16.0).max(0.0);
    let h = (height as f32 - 2.0 * 16.0).max(0.0);
    let cols = (w / 10.0).floor().max(1.0) as u16;
    let rows = (h / 22.0).floor().max(1.0) as u16;
    (rows, cols)
}

#[test]
fn grid_dimensions_fit_the_surface() {
    assert_eq!(Renderer::new(960, 600).grid_dimensions(), (25, 92));
    assert_eq!(Renderer::new(52, 76).grid_dimensions(), (2, 2));
    assert_eq!(Renderer::new(51, 75).grid_dimensions(), (1, 1));
    assert_eq!(Renderer::new(0, 0).grid_dimensions(), (1, 1));
    assert_eq!(Renderer::new(u32::MAX, u32::MAX).grid_dimensions(), (0xffff, 0xffff));
}

#[test]
fn grid_dimensions_agree_with_floating_point() {
    for extent in 0..1_600_000u32 {
        let size = Renderer::new(extent, extent).grid_dimensions();
        assert_eq!(size, float_dimensions(extent.max(1), extent.max(1)), "{}", extent);
    }
    for shift in 0..32u32 {
        for extent in [1u32 << shift, (1u32 << shift) - 1, u32::MAX >> shift] {
            let size = Renderer::new(extent, extent).grid_dimensions();
            assert_eq!(size, float_dimensions(extent.max(1), extent.max(1)), "{}", extent);
        }
    }
}

#[test]
fn resize_ignores_windows_without_area() {
    let mut renderer = Renderer::new(960, 600);
    assert!(!renderer.resize(0, 700));
    assert!(!renderer.resize(700, 0));
    assert_eq!((renderer.width, renderer.height), (960, 600));
    assert!(renderer.resize(700, 500));
    assert_eq!((renderer.width, renderer.height), (700, 500));
}

#[test]
fn first_frame_shapes_every_row() {
    let mut renderer = Renderer::new(960, 600);
    let frame = renderer.render(&frame_grid(&[], &["ab", "한\0"], 2), 0);
    assert!(frame.rebuild);
    assert_eq!(shaped(&frame), [(0, "ab"), (1, "한")]);
}

#[test]
fn repeated_frame_shapes_nothing() {
    let mut renderer = Renderer::new(960, 600);
    let grid = frame_grid(&[], &["ab", "cd"], 2);
    renderer.render(&grid, 0);
    let frame = renderer.render(&grid, 0);
    assert!(!frame.rebuild);
    assert!(frame.rows.is_empty());
}

#[test]
fn changed_rows_are_shaped_again() {
    let mut renderer = Renderer::new(960, 600);
    renderer.render(&frame_grid(&[], &["ab", "cd", "ef"], 2), 0);
    let frame = renderer.render(&frame_grid(&[], &["ab", "cx", "ef"], 2), 0);
    assert!(!frame.rebuild);
    assert_eq!(shaped(&frame), [(1, "cx")]);
    // Scrolling by one row shows other cells in every row.
    let frame = renderer.render(&frame_grid(&["s0"], &["ab", "cx", "ef"], 2), 1);
    assert_eq!(shaped(&frame), [(0, "s0"), (1, "ab"), (2, "cx")]);
}

#[test]
fn change_of_size_rebuilds_the_rows() {
    let mut renderer = Renderer::new(960, 600);
    renderer.render(&frame_grid(&[], &["ab"], 2), 0);
    let frame = renderer.render(&frame_grid(&[], &["abc"], 3), 0);
    assert!(frame.rebuild);
    assert_eq!(shaped(&frame), [(0, "abc")]);
    let frame = renderer.render(&frame_grid(&[], &["abc", "abc"], 3), 0);
    assert!(frame.rebuild);
    assert_eq!(shaped(&frame), [(0, "abc"), (1, "abc")]);
    assert_eq!(renderer.row_hashes, [row_hash(&cells("abc")), row_hash(&cells("abc"))]);
}

#[test]
fn row_hash_takes_in_all_of_a_cell() {
    let base = row_hash(&[styled('a', 1, 2, 3)]);
    assert_eq!(base, row_hash(&[styled('a', 1, 2, 3)]));
    assert_ne!(base, row_hash(&[styled('b', 1, 2, 3)]));
    assert_ne!(base, row_hash(&[styled('a', 2, 2, 3)]));
    assert_ne!(base, row_hash(&[styled('a', 1, 1, 3)]));
    assert_ne!(base, row_hash(&[styled('a', 1, 2, 4)]));
    assert_ne!(base, row_hash(&[]));
}

#[test]
fn row_text_leaves_out_continuations() {
    assert_eq!(row_text(&cells("a한\0 b")), "a한 b");
    assert_eq!(row_text(&[]), "");
}

#[test]
fn rows_stand_below_each_other() {
    assert_eq!(row_origin(0), (16, 16));
    assert_eq!(row_origin(3), (16, 82));
    assert_eq!(row_origin(4).1 - row_origin(3).1, 22);
    assert_eq!(row_buffer_size(80), (1600, 44));
}

#[test]
fn srgb_formats_are_preferred() {
    assert_eq!(preferred_format(&vec![false, true, true]), 1);
    assert_eq!(preferred_format(&vec![false, false]), 0);
    assert_eq!(preferred_format(&vec![true]), 0);
}
