use spectrum_visualizer::grid::{
    resize_rowbuf, RenderGrid, BAR_CHAR, BORDER_CHAR, EMPTY_CHAR, INIT_CHAR,
};

#[test]
fn rowbuf_grows_with_init_char() {
    let mut row: Vec<u8> = vec![b'a', b'b'];
    resize_rowbuf(&mut row, 5);
    assert_eq!(row, vec![b'a', b'b', INIT_CHAR, INIT_CHAR, INIT_CHAR]);
}

#[test]
fn rowbuf_shrinks_keeping_prefix() {
    let mut row: Vec<u8> = vec![b'a', b'b', b'c', b'd'];
    resize_rowbuf(&mut row, 2);
    assert_eq!(row, vec![b'a', b'b']);
    resize_rowbuf(&mut row, 0);
    assert!(row.is_empty());
}

#[test]
fn grid_follows_terminal_resize() {
    let mut g = RenderGrid::new();
    assert_eq!((g.width(), g.height()), (0, 0));
    g.update_size(4, 11);
    assert_eq!((g.width(), g.height()), (10, 4));
    for y in 0..4 {
        assert_eq!(g.row(y).len(), 10);
        assert!(g.row(y).iter().all(|&c| c == INIT_CHAR));
    }
    g.update_size(6, 4);
    assert_eq!((g.width(), g.height()), (3, 6));
    for y in 0..6 {
        assert_eq!(g.row(y).len(), 3);
    }
    g.update_size(2, 21);
    assert_eq!((g.width(), g.height()), (20, 2));
    for y in 0..2 {
        assert_eq!(g.row(y).len(), 20);
    }
}

#[test]
fn painted_rows_show_bars_empty_and_border() {
    let mut g = RenderGrid::new();
    g.update_size(3, 6);
    let heights: Vec<usize> = vec![0, 2, 1];
    for y in (0..3).rev() {
        g.fill_row(y, &heights);
    }
    let b = BAR_CHAR;
    let e = EMPTY_CHAR;
    let d = BORDER_CHAR;
    assert_eq!(g.row(0), &vec![b, b, b, d, d]);
    assert_eq!(g.row(1), &vec![e, b, b, d, d]);
    assert_eq!(g.row(2), &vec![e, b, e, d, d]);
    assert_eq!(BAR_CHAR, b'|');
    assert_eq!(EMPTY_CHAR, b' ');
}

#[test]
fn unchanged_size_keeps_painted_cells() {
    let mut g = RenderGrid::new();
    g.update_size(2, 3);
    g.fill_row(1, &[5, 5]);
    g.update_size(2, 3);
    assert_eq!(g.row(1), &vec![BAR_CHAR, BAR_CHAR]);
    assert_eq!(g.row(0), &vec![INIT_CHAR, INIT_CHAR]);
}

#[test]
fn screen_row_counts_from_the_top() {
    let mut g = RenderGrid::new();
    g.update_size(5, 10);
    assert_eq!(g.screen_row(0), 4);
    assert_eq!(g.screen_row(4), 0);
}

#[test]
fn debug_column_right_aligns() {
    let mut g = RenderGrid::new();
    g.update_size(5, 41);
    assert_eq!(g.debug_column(15), 25);
    assert_eq!(g.debug_column(40), 0);
    assert_eq!(g.debug_column(60), 0);
}
