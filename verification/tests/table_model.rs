use sheet_table::config::Config;
use sheet_table::table::{flatten_ranges, FetchError, Table, MAX_ROWS};

fn sample_rows() -> Vec<Vec<String>> {
    vec![
        vec!["a".to_string(), "b".to_string()],
        vec!["c".to_string(), "d".to_string()],
    ]
}

#[test]
fn default_configuration() {
    let t = Table::default();
    assert!(t.striped);
    assert!(t.resizable);
    assert!(t.clickable);
    assert_eq!(t.num_rows, 1000);
    assert_eq!(t.scroll_to_row_slider, 0);
    assert_eq!(t.scroll_to_row, None);
    assert!(t.selection.is_empty());
    assert!(!t.checked);
    assert!(t.data.is_empty());
}

#[test]
fn replace_data_returns_exactly_the_rows() {
    let mut t = Table::default();
    t.update_data(sample_rows());
    assert_eq!(t.data, sample_rows());
    t.update_data(Vec::new());
    assert_eq!(t.data, Vec::<Vec<String>>::new());
}

#[test]
fn replace_data_keeps_order_and_content() {
    let mut t = Table::default();
    let rows: Vec<Vec<String>> = (0..50)
        .map(|i| vec![format!("cell {i}"), format!("other {i}")])
        .collect();
    t.update_data(rows.clone());
    assert_eq!(t.data.len(), 50);
    for (i, row) in t.data.iter().enumerate() {
        assert_eq!(row[0], format!("cell {i}"));
        assert_eq!(row[1], format!("other {i}"));
    }
    assert_eq!(t.data, rows);
}

#[test]
fn replace_data_preserves_selection() {
    let mut t = Table::default();
    t.toggle_row_selection(3);
    t.update_data(sample_rows());
    assert!(t.selection_contains(3));
}

#[test]
fn click_row_selects_then_deselects() {
    // dataset [["a","b"],["c","d"]], two visible rows
    let mut t = Table::default();
    t.update_data(sample_rows());
    t.set_num_rows(2);
    t.handle_row_click(0);
    assert!(t.selection_contains(0));
    assert!(!t.selection_contains(1));
    t.handle_row_click(0);
    assert!(!t.selection_contains(0));
    assert!(!t.selection_contains(1));
}

#[test]
fn toggle_parity_on_one_index() {
    let mut t = Table::default();
    for _ in 0..4 {
        t.toggle_row_selection(7);
    }
    assert!(!t.selection_contains(7));
    for _ in 0..3 {
        t.toggle_row_selection(7);
    }
    assert!(t.selection_contains(7));
}

#[test]
fn toggle_leaves_other_rows_alone() {
    let mut t = Table::default();
    t.toggle_row_selection(1);
    t.toggle_row_selection(2);
    t.toggle_row_selection(3);
    t.toggle_row_selection(2);
    assert!(t.selection_contains(1));
    assert!(!t.selection_contains(2));
    assert!(t.selection_contains(3));
}

#[test]
fn clicks_ignored_while_not_clickable() {
    let mut t = Table::default();
    t.clickable = false;
    t.handle_row_click(0);
    assert!(!t.selection_contains(0));
    t.clickable = true;
    t.handle_row_click(0);
    assert!(t.selection_contains(0));
}

#[test]
fn scroll_target_consumed_exactly_once() {
    let mut t = Table::default();
    t.request_scroll_to(5);
    assert_eq!(t.consume_scroll_target(), Some(5));
    assert_eq!(t.consume_scroll_target(), None);
}

#[test]
fn scroll_target_last_write_wins() {
    let mut t = Table::default();
    t.request_scroll_to(5);
    t.request_scroll_to(9);
    assert_eq!(t.consume_scroll_target(), Some(9));
    assert_eq!(t.consume_scroll_target(), None);
}

#[test]
fn num_rows_clamped_to_upper_bound() {
    let mut t = Table::default();
    t.set_num_rows(200_000);
    assert_eq!(t.num_rows, MAX_ROWS);
    t.set_num_rows(0);
    assert_eq!(t.num_rows, 0);
    t.set_num_rows(42);
    assert_eq!(t.num_rows, 42);
}

#[test]
fn scroll_slider_requests_on_change_only() {
    let mut t = Table::default();
    t.set_scroll_slider(5);
    assert_eq!(t.scroll_to_row_slider, 5);
    assert_eq!(t.scroll_to_row, Some(5));
    assert_eq!(t.consume_scroll_target(), Some(5));
    t.set_scroll_slider(5);
    assert_eq!(t.scroll_to_row, None);
}

#[test]
fn scroll_slider_clamped_to_num_rows() {
    let mut t = Table::default();
    t.set_num_rows(10);
    t.set_scroll_slider(25);
    assert_eq!(t.scroll_to_row_slider, 10);
    assert_eq!(t.scroll_to_row, Some(10));
}

#[test]
fn failed_fetch_leaves_dataset_empty() {
    // the host shell still completes startup: the table stays usable
    let mut t = Table::default();
    let err = t.populate_from_fetch(Err(FetchError {
        message: "network timeout".to_string(),
    }));
    assert_eq!(err.map(|e| e.message), Some("network timeout".to_string()));
    assert!(t.data.is_empty());
    let frame = t.build_frame(0, 200, 20);
    assert_eq!(frame.first_row, 0);
}

#[test]
fn successful_fetch_populates_dataset() {
    let mut t = Table::default();
    let err = t.populate_from_fetch(Ok(sample_rows()));
    assert!(err.is_none());
    assert_eq!(t.data, sample_rows());
}

#[test]
fn flatten_ranges_concatenates_in_order() {
    let r1 = vec![vec!["a".to_string()], vec!["b".to_string()]];
    let r2: Vec<Vec<String>> = Vec::new();
    let r3 = vec![vec!["c".to_string(), "d".to_string()]];
    let rows = flatten_ranges(vec![r1, r2, r3]);
    assert_eq!(
        rows,
        vec![
            vec!["a".to_string()],
            vec!["b".to_string()],
            vec!["c".to_string(), "d".to_string()],
        ]
    );
    assert!(flatten_ranges(Vec::new()).is_empty());
}

#[test]
fn config_carries_its_settings() {
    let c = Config::new(
        "key.json".to_string(),
        "sheet-id".to_string(),
        "Sheet1!A:B".to_string(),
        "Sheet1!C:D".to_string(),
    );
    assert_eq!(c.private_key, "key.json");
    assert_eq!(c.sheet_id, "sheet-id");
    assert_eq!(c.deposit_range_input, "Sheet1!A:B");
    assert_eq!(c.deposit_range_output, "Sheet1!C:D");
}

#[test]
fn table_name() {
    let t = Table::default();
    assert_eq!(t.name(), "Google Sheets Table");
}
