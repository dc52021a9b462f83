use sheet_table::table::Table;
use sheet_table::text::{long_text, usize_to_string};
use sheet_table::view::{
    column_layout, scroll_offset_for_row, thick_row, trailing_text, visible_range, ColumnSizing,
};

#[test]
fn decimal_labels() {
    assert_eq!(usize_to_string(0), "0");
    assert_eq!(usize_to_string(7), "7");
    assert_eq!(usize_to_string(10), "10");
    assert_eq!(usize_to_string(12345), "12345");
    assert_eq!(usize_to_string(100_000), "100000");
}

#[test]
fn long_text_exact() {
    assert_eq!(
        long_text(3),
        "Row 3 has some long text that you may want to clip, or it will take up too much \
         horizontal space!"
    );
    assert_eq!(
        long_text(42),
        "Row 42 has some long text that you may want to clip, or it will take up too much \
         horizontal space!"
    );
}

#[test]
fn thick_rows_every_sixth() {
    assert!(thick_row(0));
    assert!(!thick_row(1));
    assert!(!thick_row(5));
    assert!(thick_row(6));
    assert!(thick_row(12));
}

#[test]
fn trailing_cell_text() {
    assert_eq!(trailing_text(), "Thousands of rows of even height");
}

#[test]
fn five_column_policy() {
    let cols = column_layout();
    assert_eq!(cols.len(), 5);
    let headers: Vec<&str> = cols.iter().map(|c| c.header).collect();
    assert_eq!(
        headers,
        vec!["Row", "Interaction", "Expanding content", "Clipped text", "Content"]
    );
    assert!(matches!(cols[0].sizing, ColumnSizing::Auto));
    assert!(matches!(cols[1].sizing, ColumnSizing::Auto));
    assert!(matches!(
        cols[2].sizing,
        ColumnSizing::Resizable { initial: 100, min: 40, max: 300 }
    ));
    assert!(matches!(
        cols[3].sizing,
        ColumnSizing::ClippedAtLeast { initial: 100, min: 40 }
    ));
    assert!(matches!(cols[4].sizing, ColumnSizing::Remainder));
}

#[test]
fn visible_range_windows_the_viewport() {
    // 20 px rows, 600 px viewport, top of the body
    assert_eq!(visible_range(0, 600, 20, 100_000), (0, 30));
    // scrolled to a row boundary
    assert_eq!(visible_range(1000, 600, 20, 100_000), (50, 80));
    // scrolled into the middle of a row: both cut rows materialize
    assert_eq!(visible_range(1010, 600, 20, 100_000), (50, 81));
    // near the end the window is clipped to the row count
    assert_eq!(visible_range(1990, 600, 20, 100), (99, 100));
    // an empty table yields an empty window
    assert_eq!(visible_range(0, 600, 20, 0), (0, 0));
}

#[test]
fn virtualized_frame_stays_viewport_sized() {
    // a hundred thousand logical rows must never materialize at once
    let mut t = Table::default();
    t.set_num_rows(100_000);
    let frame = t.build_frame(0, 600, 20);
    assert_eq!(frame.first_row, 0);
    assert_eq!(frame.rows.len(), 30);
    for (k, row) in frame.rows.iter().enumerate() {
        assert_eq!(row.index, k);
        assert_eq!(row.index_label, format!("{k}"));
        assert!(!row.selected);
    }
}

#[test]
fn frame_reflects_selection() {
    let mut t = Table::default();
    t.set_num_rows(10);
    t.handle_row_click(2);
    let frame = t.build_frame(0, 600, 20);
    assert_eq!(frame.rows.len(), 10);
    assert!(frame.rows[2].selected);
    assert!(!frame.rows[3].selected);
}

#[test]
fn scroll_offset_moves_minimally() {
    // already fully visible: no movement
    assert_eq!(scroll_offset_for_row(0, 600, 20, 5), 0);
    // above the viewport: its top is brought to the top edge
    assert_eq!(scroll_offset_for_row(1000, 600, 20, 3), 60);
    // below the viewport: its bottom is brought to the bottom edge
    assert_eq!(scroll_offset_for_row(0, 600, 20, 50), 1020 - 600);
}

#[test]
fn scroll_request_scrolls_once_then_stays() {
    // requestScrollTo(50): the frame shows row 50, and the next frame
    // with no new request keeps the viewport where it is
    let mut t = Table::default();
    t.set_num_rows(100);
    t.request_scroll_to(50);
    let frame = t.build_frame(0, 40, 20);
    assert_eq!(frame.scroll_offset, 51 * 20 - 40);
    let shown: Vec<usize> = frame.rows.iter().map(|r| r.index).collect();
    assert!(shown.contains(&50));
    let next = t.build_frame(frame.scroll_offset, 40, 20);
    assert_eq!(next.scroll_offset, frame.scroll_offset);
}

#[test]
fn small_table_scroll_to_second_row() {
    // with two 20 px rows and a 20 px viewport, showing row 1 needs a scroll
    let mut t = Table::default();
    t.set_num_rows(2);
    t.request_scroll_to(1);
    let frame = t.build_frame(0, 20, 20);
    assert_eq!(frame.scroll_offset, 20);
    assert_eq!(frame.rows.len(), 1);
    assert_eq!(frame.rows[0].index, 1);
    let next = t.build_frame(frame.scroll_offset, 20, 20);
    assert_eq!(next.scroll_offset, 20);
}

#[test]
fn out_of_range_scroll_target_is_clamped() {
    let mut t = Table::default();
    t.set_num_rows(10);
    t.request_scroll_to(5000);
    let frame = t.build_frame(0, 40, 20);
    // clamped to the last row, row 9
    assert_eq!(frame.scroll_offset, 10 * 20 - 40);
    // an empty table ignores the target entirely
    let mut e = Table::default();
    e.set_num_rows(0);
    e.request_scroll_to(3);
    let empty_frame = e.build_frame(0, 40, 20);
    assert_eq!(empty_frame.scroll_offset, 0);
    assert!(empty_frame.rows.is_empty());
}

#[test]
fn frame_clears_the_scroll_target() {
    let mut t = Table::default();
    t.request_scroll_to(1);
    let _ = t.build_frame(0, 40, 20);
    assert_eq!(t.consume_scroll_target(), None);
}
