use tezedge_tui::extensions::{CellContent, TuiTableData};
use tezedge_tui::operations::{
    all_deltas_fit, NodeReports, OperationKind, OperationNodeCurrentHeadStats, OperationNodeStats,
    OperationStats, OperationValidationResult, OperationsStatisticsState,
};

fn seen(latency: i64) -> OperationNodeCurrentHeadStats {
    OperationNodeCurrentHeadStats { latency, block_level: 1, block_timestamp: 0 }
}

fn node(received: i64, content: i64, sent: i64) -> OperationNodeStats {
    OperationNodeStats {
        received: vec![seen(received)],
        sent: vec![seen(sent)],
        content_requested: Vec::new(),
        content_received: vec![content],
        content_requested_remote: Vec::new(),
        content_sent: Vec::new(),
    }
}

fn stats(first_block_timestamp: u64, received: i64) -> OperationStats {
    let mut op = OperationStats::default();
    op.kind = Some(OperationKind::Endorsement);
    op.first_block_timestamp = Some(first_block_timestamp);
    op.validation_started = Some(50);
    op.validation_result = Some((90, OperationValidationResult::Applied, Some(60), Some(80)));
    op.nodes = NodeReports::from_entries(vec![
        ("n1".to_string(), node(received, 30, 120)),
        ("n2".to_string(), node(received + 5, 25, 100)),
    ])
    .unwrap();
    op
}

#[test]
fn statistics_row_takes_the_earliest_sightings_and_step_deltas() {
    let row = stats(3_725, 10).to_statistics_sortable("oo1".to_string());
    assert_eq!(row.hash, "oo1");
    assert_eq!(row.nodes, 2);
    assert_eq!(row.received, Some(10));
    assert_eq!(row.content_received, Some(25));
    assert_eq!(row.sent, Some(100));
    assert_eq!(row.delta, Some(90));
    assert_eq!(row.content_received_delta, Some(15));
    assert_eq!(row.validation_started_delta, Some(25));
    assert_eq!(row.preapply_started_delta, Some(10));
    assert_eq!(row.preapply_ended_delta, Some(20));
    assert_eq!(row.validation_finished_delta, Some(40));
    assert_eq!(row.sent_delta, Some(10));
    assert_eq!(row.datetime, 3_725);
}

#[test]
fn statistics_row_shows_the_time_of_day() {
    let row = stats(3_725, 10).to_statistics_sortable("oo1".to_string());
    let cells = row.construct_tui_table_data(false);
    match &cells[0].0 {
        CellContent::Text(t) => assert_eq!(t, "01:02:05"),
        _ => panic!("the datetime is text"),
    }
    let late = stats(86_399, 10).to_statistics_sortable("oo2".to_string());
    match &late.construct_tui_table_data(true)[0].0 {
        CellContent::Text(t) => assert_eq!(t, "23:59:59"),
        _ => panic!("the datetime is text"),
    }
}

#[test]
fn details_rows_follow_the_node_reports() {
    let details = stats(0, 10).to_operations_details();
    assert_eq!(details.len(), 2);
    assert_eq!(details[0].node_id, "n1");
    assert_eq!(details[0].first_received, Some(10));
    assert_eq!(details[0].first_content_received, Some(30));
    assert_eq!(details[0].first_sent, Some(120));
    assert_eq!(details[1].received, 1);
}

#[test]
fn operation_helpers() {
    let op = stats(0, 10);
    assert_eq!(op.node_count(), 2);
    assert!(!op.is_injected());
    assert_eq!(op.validation_duration(), Some(40));
    assert_eq!(op.validation_ended(), Some(90));
    assert_eq!(op.first_sent(), Some(100));
    assert_eq!(op.first_content_requested_remote(), None);
    assert_eq!(op.first_content_sent(), None);
    assert_eq!(OperationKind::Endorsement.to_string(), "Endorsement");
}

#[test]
fn statistics_received_fills_the_main_table() {
    let mut state = OperationsStatisticsState::default();
    let list = vec![("oo2".to_string(), stats(20, 10)), ("oo1".to_string(), stats(10, 7))];
    assert!(all_deltas_fit(&list));
    state.statistics_received(list, false);
    assert_eq!(state.operations_statistics.len(), 2);
    let hashes: Vec<&str> = state.main_operation_statistics_table.content.iter().map(|r| r.hash.as_str()).collect();
    // the table is sorted by its first column, the datetime
    assert_eq!(hashes, vec!["oo1", "oo2"]);
}

#[test]
fn moving_in_the_main_table_shows_the_details() {
    let mut state = OperationsStatisticsState::default();
    state.statistics_received(vec![("oo1".to_string(), stats(10, 7)), ("oo2".to_string(), stats(20, 10))], false);
    state.move_main_selection(true);
    assert_eq!(state.main_operation_statistics_table.table_state.selected, Some(0));
    assert_eq!(state.details_operation_statistics_table.content.len(), 2);
    assert_eq!(state.details_operation_statistics_table.content[0].first_received, Some(7));
    state.move_main_selection(true);
    assert_eq!(state.main_operation_statistics_table.table_state.selected, Some(1));
    assert_eq!(state.details_operation_statistics_table.content[0].first_received, Some(10));
    state.move_main_selection(false);
    assert_eq!(state.main_operation_statistics_table.table_state.selected, Some(0));
}

#[test]
fn deltas_that_do_not_fit_are_detected() {
    let mut op = stats(0, 10);
    op.validation_started = Some(i64::MIN);
    assert!(!all_deltas_fit(&vec![("x".to_string(), op)]));
}

#[test]
fn node_reports_are_taken_only_when_their_ids_ascend_once_each() {
    let n = |id: &str| (id.to_string(), node(1, 2, 3));
    assert!(NodeReports::from_entries(vec![n("n1"), n("n2"), n("n3")]).is_some());
    assert!(NodeReports::from_entries(Vec::new()).is_some());
    assert!(NodeReports::from_entries(vec![n("n1"), n("n2"), n("n1")]).is_none());
    assert!(NodeReports::from_entries(vec![n("n3"), n("n1"), n("n2")]).is_none());
    assert!(NodeReports::from_entries(vec![n("n1"), n("n1")]).is_none());
    let reports = NodeReports::from_entries(vec![n("a"), n("b")]).unwrap();
    assert_eq!(reports.len(), 2);
    let copy = reports.clone();
    let ids: Vec<&str> = copy.entries().iter().map(|(id, _)| id.as_str()).collect();
    assert_eq!(ids, vec!["a", "b"]);
}

#[test]
fn statistics_row_agrees_with_the_details_rows() {
    let op = stats(0, 10);
    let details = op.to_operations_details();
    let row = op.to_statistics_sortable("oo1".to_string());
    assert_eq!(row.nodes, details.len());
    assert_eq!(row.nodes, op.node_count());
    assert_eq!(row.sent, details.iter().filter_map(|d| d.first_sent).min());
    assert_eq!(row.validation_finished, op.validation_ended());
    assert_eq!(row.validation_finished_delta, op.validation_duration());
}
