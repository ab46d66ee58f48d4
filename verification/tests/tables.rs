use tezedge_tui::endorsements::{EndorsementState, EndorsementStatusSortable};
use tezedge_tui::extensions::extended_table::{Constraint, ExtendedTable, TableState};
use tezedge_tui::extensions::sorting::sort_items_by_focus;
use tezedge_tui::extensions::{CellContent, CellStyle, Color, SortOrder};
use tezedge_tui::terminal_ui::{next_item, previous_item};

fn strings(items: &[&str]) -> Vec<String> {
    items.iter().map(|s| s.to_string()).collect()
}

fn row(baker: &str, slots: usize, delta: Option<u64>, state: EndorsementState) -> EndorsementStatusSortable {
    let mut r = EndorsementStatusSortable::new(baker.to_string(), slots);
    r.delta = delta;
    r.state = state;
    r
}

fn table(rows: Vec<EndorsementStatusSortable>) -> ExtendedTable<Vec<EndorsementStatusSortable>> {
    let mut t = ExtendedTable::new(
        strings(&["Slots", "Baker", "Status", "Delta", "Receive hash"]),
        vec![
            Constraint::Length(7),
            Constraint::Length(36),
            Constraint::Min(11),
            Constraint::Min(8),
            Constraint::Min(14),
        ],
        2,
    );
    t.content = rows;
    t
}

#[test]
fn next_item_moves_down_and_wraps() {
    assert_eq!(next_item(3, None), Some(0));
    assert_eq!(next_item(3, Some(0)), Some(1));
    assert_eq!(next_item(3, Some(1)), Some(2));
    assert_eq!(next_item(3, Some(2)), Some(0));
    assert_eq!(next_item(0, Some(5)), Some(0));
    assert_eq!(next_item(3, Some(usize::MAX)), Some(0));
}

#[test]
fn previous_item_moves_up_and_wraps() {
    assert_eq!(previous_item(3, None), Some(0));
    assert_eq!(previous_item(3, Some(2)), Some(1));
    assert_eq!(previous_item(3, Some(0)), Some(2));
    assert_eq!(previous_item(0, Some(4)), Some(0));
}

#[test]
fn next_then_previous_returns_to_the_row() {
    for total in 1..6usize {
        for i in 0..total {
            assert_eq!(previous_item(total, next_item(total, Some(i))), Some(i));
            assert_eq!(next_item(total, previous_item(total, Some(i))), Some(i));
        }
    }
}

#[test]
fn switch_flips_the_order_and_twice_gives_it_back() {
    assert_eq!(SortOrder::Ascending.switch(), SortOrder::Descending);
    assert_eq!(SortOrder::Descending.switch(), SortOrder::Ascending);
    assert_eq!(SortOrder::Ascending.switch().switch(), SortOrder::Ascending);
}

#[test]
fn sort_by_text_column_is_stable_and_ordered() {
    let rows = vec![
        row("tz1c", 1, Some(5), EndorsementState::Missing),
        row("tz1a", 2, Some(9), EndorsementState::Applied),
        row("tz1b", 3, Some(5), EndorsementState::Broadcast),
    ];
    let by_baker = sort_items_by_focus(rows, 1, false);
    let bakers: Vec<&str> = by_baker.iter().map(|r| r.baker.as_str()).collect();
    assert_eq!(bakers, vec!["tz1a", "tz1b", "tz1c"]);

    let by_delta = sort_items_by_focus(by_baker, 3, false);
    let bakers: Vec<&str> = by_delta.iter().map(|r| r.baker.as_str()).collect();
    // equal deltas keep their order: tz1b came before tz1c
    assert_eq!(bakers, vec!["tz1b", "tz1c", "tz1a"]);
}

#[test]
fn missing_times_sort_first() {
    let rows = vec![
        row("a", 1, Some(3), EndorsementState::Missing),
        row("b", 1, None, EndorsementState::Missing),
        row("c", 1, Some(0), EndorsementState::Missing),
    ];
    let sorted = sort_items_by_focus(rows, 3, false);
    let bakers: Vec<&str> = sorted.iter().map(|r| r.baker.as_str()).collect();
    assert_eq!(bakers, vec!["b", "c", "a"]);
}

#[test]
fn sort_by_state_follows_the_order_of_states() {
    let rows = vec![
        row("a", 1, None, EndorsementState::Received),
        row("b", 1, None, EndorsementState::Missing),
        row("c", 1, None, EndorsementState::Applied),
    ];
    let sorted = sort_items_by_focus(rows, 2, false);
    let bakers: Vec<&str> = sorted.iter().map(|r| r.baker.as_str()).collect();
    assert_eq!(bakers, vec!["b", "c", "a"]);
}

#[test]
fn column_out_of_range_keeps_the_order() {
    let rows = vec![
        row("b", 1, None, EndorsementState::Missing),
        row("a", 1, None, EndorsementState::Missing),
    ];
    let sorted = sort_items_by_focus(rows, 42, false);
    assert_eq!(sorted[0].baker, "b");
    assert_eq!(sorted[1].baker, "a");
}

#[test]
fn toggle_sort_flips_the_order_and_sorts_by_selection() {
    let mut t = table(vec![
        row("a", 1, None, EndorsementState::Missing),
        row("b", 3, None, EndorsementState::Missing),
        row("c", 2, None, EndorsementState::Missing),
    ]);
    assert_eq!(*t.sort_order(), SortOrder::Ascending);
    t.toggle_sort(false);
    assert_eq!(*t.sort_order(), SortOrder::Descending);
    assert_eq!(t.sorted_by(), 0);
    let slots: Vec<usize> = t.content.iter().map(|r| r.slot_count).collect();
    assert_eq!(slots, vec![3, 2, 1]);
    t.toggle_sort(false);
    let slots: Vec<usize> = t.content.iter().map(|r| r.slot_count).collect();
    assert_eq!(slots, vec![1, 2, 3]);
}

#[test]
fn highlight_marks_the_sorted_column() {
    let mut t = table(Vec::new());
    t.set_sorted_by(1);
    t.highlight_sorting();
    assert_eq!(t.modified_headers[1], "Baker \u{25B2}");
    assert_eq!(t.modified_headers[0], "Slots");
    t.set_sort_order(SortOrder::Descending);
    t.highlight_sorting();
    assert_eq!(t.modified_headers[1], "Baker \u{25BC}");
}

#[test]
fn new_table_starts_scrolled_after_fixed_columns() {
    let t = table(Vec::new());
    assert_eq!(t.fixed(), 2);
    assert_eq!(t.first_rendered_index(), 2);
    assert_eq!(t.selected(), 0);
    assert_eq!(t.rendered(), 0);
    assert_eq!(t.table_state, TableState { offset: 0, selected: None });
}

#[test]
fn renderable_constraints_fit_the_width() {
    let t = table(Vec::new());
    // padding 2, fixed columns have no minimum; then Min(11)+1, Min(8)+1, Min(14)+1
    assert!(t.check_layout(40));
    assert_eq!(
        t.renderable_constraints(40),
        vec![Constraint::Length(7), Constraint::Length(36), Constraint::Min(11), Constraint::Min(8), Constraint::Min(14)]
    );
    assert_eq!(
        t.renderable_constraints(30),
        vec![Constraint::Length(7), Constraint::Length(36), Constraint::Min(11), Constraint::Min(8)]
    );
    assert_eq!(t.renderable_constraints(10), vec![Constraint::Length(7), Constraint::Length(36)]);
}

#[test]
fn layout_check_detects_sixteen_bit_overflow() {
    let t: ExtendedTable<Vec<EndorsementStatusSortable>> = ExtendedTable::new(
        strings(&["a", "b"]),
        vec![Constraint::Min(60000), Constraint::Min(60000)],
        0,
    );
    assert!(t.check_layout(100));
    assert!(!t.check_layout(65535));
}

#[test]
fn moving_right_scrolls_at_the_last_rendered_column() {
    let mut t = table(Vec::new());
    t.set_rendered(4);
    assert!(t.check_move_right());
    t.next();
    assert_eq!((t.selected(), t.first_rendered_index()), (1, 2));
    t.next();
    assert_eq!((t.selected(), t.first_rendered_index()), (2, 2));
    t.next();
    assert_eq!((t.selected(), t.first_rendered_index()), (3, 3));
    assert!(t.check_move_left());
    t.previous();
    assert_eq!((t.selected(), t.first_rendered_index()), (2, 2));
}

#[test]
fn renderable_row_undims_the_selected_column() {
    let mut t = table(Vec::new());
    t.set_first_rendered_index(3);
    t.set_sorted_by(0);
    let dim = CellStyle { fg: Some(Color::White), bg: None, dim: true };
    let cells: Vec<(CellContent, CellStyle)> = (0..5)
        .map(|i| (CellContent::Text(format!("c{}", i)), dim))
        .collect();
    let shown = t.renderable_row(&cells);
    let texts: Vec<String> = shown
        .iter()
        .map(|(c, _)| match c {
            CellContent::Text(s) => s.clone(),
            CellContent::Duration(d) => d.to_string(),
        })
        .collect();
    assert_eq!(texts, vec!["c0", "c1", "c3", "c4"]);
    assert!(!shown[0].1.dim);
    assert!(shown[1].1.dim);
    let headers = t.renderable_headers();
    assert_eq!(headers.len(), 4);
    assert_eq!(headers[0], ("Slots".to_string(), true));
    assert_eq!(headers[2], ("Delta".to_string(), false));
}
