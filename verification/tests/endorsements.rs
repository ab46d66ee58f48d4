use tezedge_tui::baking::BlockApplicationStatistics;
use tezedge_tui::endorsements::{
    check_statuses, rows_of, summarize, EndorsementOperationSummary, EndorsementRightsWithTime,
    EndorsementRightsWithTimePerLevel, EndorsementState, EndorsementStatus,
    EndorsementStatusSortable, EndrosementsState,
};
use tezedge_tui::extensions::{CellContent, CellStyle, Color, TuiTableData};
use tezedge_tui::operations::{NodeReports, OperationNodeCurrentHeadStats, OperationNodeStats, OperationStats};
use tezedge_tui::text_map::TextMap;
use tezedge_tui::timing::Timestamp;

fn status(slot: u32, state: &str) -> EndorsementStatus {
    EndorsementStatus {
        decoded_time: None,
        applied_time: None,
        prechecked_time: None,
        broadcast_time: None,
        received_contents_time: None,
        received_hash_time: None,
        slot,
        state: state.to_string(),
        broadcast: false,
    }
}

fn timed_status() -> EndorsementStatus {
    EndorsementStatus {
        received_hash_time: Some(100),
        received_contents_time: Some(150),
        decoded_time: Some(170),
        prechecked_time: Some(200),
        applied_time: Some(260),
        broadcast_time: Some(300),
        slot: 4,
        state: "broadcast".to_string(),
        broadcast: true,
    }
}

fn rights() -> Vec<(String, Vec<u32>)> {
    vec![
        ("tz1a".to_string(), vec![3, 7]),
        ("tz1b".to_string(), vec![1]),
        ("tz1c".to_string(), vec![9, 10, 11]),
    ]
}

#[test]
fn states_parse_from_lower_case_names() {
    assert_eq!(EndorsementState::from_str("missing").ok(), Some(EndorsementState::Missing));
    assert_eq!(EndorsementState::from_str("broadcast").ok(), Some(EndorsementState::Broadcast));
    assert_eq!(EndorsementState::from_str("applied").ok(), Some(EndorsementState::Applied));
    assert_eq!(EndorsementState::from_str("prechecked").ok(), Some(EndorsementState::Prechecked));
    assert_eq!(EndorsementState::from_str("decoded").ok(), Some(EndorsementState::Decoded));
    assert_eq!(EndorsementState::from_str("received").ok(), Some(EndorsementState::Received));
    assert!(EndorsementState::from_str("Missing").is_err());
    assert!(EndorsementState::from_str("").is_err());
}

#[test]
fn states_print_capitalized_with_their_colors() {
    assert_eq!(EndorsementState::Prechecked.to_string(), "Prechecked");
    assert_eq!(EndorsementState::Missing.get_style(), CellStyle { fg: None, bg: Some(Color::Red), dim: false });
    assert_eq!(EndorsementState::Received.get_style_fg(), CellStyle { fg: Some(Color::Yellow), bg: None, dim: false });
    assert_eq!(EndorsementState::Decoded.rank(), 4);
}

#[test]
fn to_sortable_computes_the_step_deltas() {
    let s = timed_status().to_sortable("tz1x".to_string(), 2);
    assert_eq!(s.delta, Some(200));
    assert_eq!(s.received_contents_time_delta, Some(50));
    assert_eq!(s.decoded_time_delta, Some(20));
    assert_eq!(s.prechecked_time_delta, Some(30));
    assert_eq!(s.applied_time_delta, Some(90));
    assert_eq!(s.broadcast_time_delta, Some(40));
    assert_eq!(s.state, EndorsementState::Broadcast);
    assert_eq!(s.baker, "tz1x");
    assert_eq!(s.slot_count, 2);
}

#[test]
fn broadcast_delta_falls_back_to_precheck() {
    let mut st = timed_status();
    st.applied_time = None;
    let s = st.to_sortable("tz1x".to_string(), 1);
    assert_eq!(s.broadcast_time_delta, Some(100));
    assert_eq!(s.applied_time_delta, None);
    assert!(st.check_times());
    st.broadcast_time = Some(50);
    assert!(!st.check_times());
}

#[test]
fn unknown_state_name_counts_as_missing() {
    let s = status(1, "weird").to_sortable("tz1".to_string(), 1);
    assert_eq!(s.state, EndorsementState::Missing);
}

#[test]
fn rows_take_the_status_of_the_smallest_matching_slot() {
    let statuses = vec![
        ("op1".to_string(), status(7, "applied")),
        ("op2".to_string(), status(3, "decoded")),
        ("op3".to_string(), status(3, "received")),
        ("op4".to_string(), status(12, "broadcast")),
    ];
    let rows = rows_of(&rights(), &statuses);
    assert_eq!(rows.len(), 3);
    // slot 3 is the smallest of tz1a's; of the two reports of slot 3 the last counts
    assert_eq!(rows[0].baker, "tz1a");
    assert_eq!(rows[0].state, EndorsementState::Received);
    assert_eq!(rows[0].slot_count, 2);
    assert_eq!(rows[1].state, EndorsementState::Missing);
    assert_eq!(rows[2].state, EndorsementState::Missing);
    assert_eq!(rows[2].slot_count, 3);
}

#[test]
fn summary_counts_slots_per_state_in_order() {
    let statuses = vec![("op".to_string(), status(9, "applied"))];
    let rows = rows_of(&rights(), &statuses);
    let summary = summarize(&rows);
    assert_eq!(summary, vec![(EndorsementState::Missing, 3), (EndorsementState::Applied, 3)]);
    let total: usize = summary.iter().map(|(_, n)| n).sum();
    assert_eq!(total, 6);
}

#[test]
fn statuses_received_fills_and_sorts_the_table() {
    let mut state = EndrosementsState::default();
    state.endorsement_rights = rights();
    state.statuses_received(&Vec::new(), true);
    assert!(state.endorsement_table.content.is_empty());
    assert!(state.endoresement_status_summary.is_empty());

    let statuses = vec![("op".to_string(), status(1, "decoded"))];
    state.statuses_received(&statuses, true);
    let bakers: Vec<&str> = state.endorsement_table.content.iter().map(|r| r.baker.as_str()).collect();
    // sorted by the first column, the slot count, ascending
    assert_eq!(bakers, vec!["tz1b", "tz1a", "tz1c"]);
    assert_eq!(
        state.endoresement_status_summary,
        vec![(EndorsementState::Missing, 5), (EndorsementState::Decoded, 1)]
    );
}

#[test]
fn table_row_shows_times_or_dashes() {
    let s = timed_status().to_sortable("tz1x".to_string(), 2);
    let cells = s.construct_tui_table_data(true);
    assert_eq!(cells.len(), 10);
    match &cells[0].0 {
        CellContent::Text(t) => assert_eq!(t, "2"),
        _ => panic!("slot count is text"),
    }
    match &cells[2].0 {
        CellContent::Text(t) => assert_eq!(t, "Broadcast"),
        _ => panic!("state is text"),
    }
    assert_eq!(cells[2].1, CellStyle { fg: None, bg: Some(Color::Green), dim: false });
    match cells[5].0 {
        CellContent::Duration(d) => assert_eq!(d, 50),
        _ => panic!("delta is a time"),
    }
    let absolute = s.construct_tui_table_data(false);
    match absolute[5].0 {
        CellContent::Duration(d) => assert_eq!(d, 150),
        _ => panic!("absolute is a time"),
    }
    let missing = EndorsementStatusSortable::new("tz1y".to_string(), 1).construct_tui_table_data(false);
    match &missing[3].0 {
        CellContent::Text(t) => assert_eq!(t, "-"),
        _ => panic!("missing is a dash"),
    }
    assert_eq!(missing[3].1, CellStyle { fg: Some(Color::DarkGray), bg: None, dim: false });
}

fn right(level: i32, time: Option<i64>) -> EndorsementRightsWithTimePerLevel {
    EndorsementRightsWithTimePerLevel {
        level,
        slots: vec![1],
        delegate: "tz1me".to_string(),
        estimated_time: time.map(|t| Timestamp { unix_seconds: t, nanosecond: 0 }),
    }
}

#[test]
fn next_endorsing_finds_the_first_level_at_or_after() {
    let rights = EndorsementRightsWithTime::new(&vec![right(20, Some(0)), right(12, None), right(15, Some(0))]);
    assert_eq!(rights.next_endorsing_level(10), Some(12));
    assert_eq!(rights.next_endorsing_level(13), Some(15));
    assert_eq!(rights.next_endorsing_level(21), None);
    let head = Timestamp { unix_seconds: 1_000, nanosecond: 0 };
    // level 15 is 2 levels on, 30 s each, seen 10 s after the head: 50 s to go
    assert_eq!(rights.next_endorsing_at(13, head, 30, 1_010), Some((15, "50 seconds".to_string())));
    assert_eq!(rights.next_endorsing_at(11, head, 30, 1_010), Some((12, String::new())));
    assert_eq!(rights.next_endorsing_at(15, head, 30, 1_000 + 7_200), Some((15, "-2 hours".to_string())));
    assert_eq!(rights.next_endorsing_at(99, head, 30, 1_000), None);
    let (level, text) = rights.next_endorsing(13, head, 30).unwrap();
    assert_eq!(level, 15);
    assert!(!text.is_empty());
}

fn node(sent: i64, requested: i64, content_sent: i64) -> OperationNodeStats {
    OperationNodeStats {
        received: Vec::new(),
        sent: vec![OperationNodeCurrentHeadStats { latency: sent, block_level: 1, block_timestamp: 0 }],
        content_requested: Vec::new(),
        content_received: Vec::new(),
        content_requested_remote: vec![requested],
        content_sent: vec![content_sent],
    }
}

fn op_stats() -> OperationStats {
    let mut op = OperationStats::default();
    op.injected_timestamp = Some(5_000);
    op.validation_started = Some(10);
    op.validation_result = Some((40, tezedge_tui::operations::OperationValidationResult::Applied, None, None));
    op.nodes = NodeReports::from_entries(vec![("n1".to_string(), node(70, 100, 130)), ("n2".to_string(), node(60, 120, 125))])
        .unwrap();
    op
}

fn block_stats() -> BlockApplicationStatistics {
    BlockApplicationStatistics {
        block_hash: "B1".to_string(),
        block_timestamp: 0,
        receive_timestamp: 3_000,
        baker: None,
        baker_priority: None,
        download_block_header_start: None,
        download_block_header_end: None,
        download_block_operations_start: None,
        download_block_operations_end: None,
        load_data_start: None,
        load_data_end: None,
        precheck_start: None,
        precheck_end: None,
        apply_block_start: Some(100),
        apply_block_end: Some(400),
        store_result_start: None,
        store_result_end: None,
        send_start: None,
        send_end: None,
        protocol_times: None,
        injected: None,
    }
}

#[test]
fn operation_summary_measures_each_step() {
    let head = Timestamp { unix_seconds: 0, nanosecond: 1_000 };
    let op = op_stats();
    let block = block_stats();
    let s = EndorsementOperationSummary::new(head, &op, Some(&block));
    assert_eq!(s.block_received, Some(2_000));
    assert_eq!(s.block_application, Some(300));
    assert_eq!(s.injected, Some(2_000));
    assert_eq!(s.validated, Some(30));
    // first sent at 60, validation ended at 40
    assert_eq!(s.operation_hash_sent, Some(20));
    // first requested at 100
    assert_eq!(s.operation_requested, Some(40));
    // first content sent at 125
    assert_eq!(s.operation_sent, Some(25));
    assert_eq!(s.operation_hash_received_back, None);
    let without_block = EndorsementOperationSummary::new(head, &op, None);
    assert_eq!(without_block.block_received, None);
    assert_eq!(without_block.injected, None);
}

#[test]
fn mempool_stats_keep_the_injected_endorsement_of_the_level() {
    let mut state = EndrosementsState::default();
    let mut other = OperationStats::default();
    other.validation_started = Some(1);
    state.mempool_stats_received(vec![("a".to_string(), other), ("b".to_string(), op_stats())], 77);
    let kept = state.injected_endorsement_stats.get(77).unwrap();
    assert_eq!(kept.injected_timestamp, Some(5_000));
    state.mempool_stats_received(vec![("c".to_string(), OperationStats::default())], 78);
    assert!(state.injected_endorsement_stats.get(78).is_none());
}

#[test]
fn head_change_records_the_summary_of_an_endorsed_level() {
    let mut state = EndrosementsState::default();
    state.endorsement_rights_with_time = EndorsementRightsWithTime::new(&vec![right(50, Some(0))]);
    state.mempool_stats_received(vec![("b".to_string(), op_stats())], 50);
    let mut application = TextMap::new();
    application.insert("B1".to_string(), block_stats());
    let head = Timestamp { unix_seconds: 0, nanosecond: 1_000 };
    state.head_changed(49, head, "B1", &application);
    assert_eq!(state.last_endrosement_operation_level, 0);
    state.head_changed(50, head, "B1", &application);
    assert_eq!(state.last_endrosement_operation_level, 50);
    assert_eq!(state.last_injected_endorsement_summary.validated, Some(30));
    assert_eq!(state.last_injected_endorsement_summary.block_application, Some(300));
}

#[test]
fn endorsement_summary_rows_list_each_step() {
    let mut s = EndorsementOperationSummary::default();
    s.block_received = Some(25_000_000);
    s.validated = Some(10);
    let rows = s.to_table_data();
    let labels: Vec<&str> = rows.iter().map(|r| r.1.as_str()).collect();
    assert_eq!(
        labels,
        vec![
            "Block Received",
            "Block Application",
            "Endorsement Operation Injected",
            "Endorsement Operation Validated",
            "Endorsement Operation Hash Sent",
            "Endorsement Operation Requested",
            "Endorsement Operation Sent",
        ]
    );
    assert!(rows.iter().all(|r| r.0.is_empty()));
    assert_eq!(rows[0].2.value, Some(25_000_000));
    assert_eq!(
        rows[0].2.style,
        CellStyle { fg: Some(Color::Rgb(255, 165, 0)), bg: None, dim: true }
    );
    assert_eq!(rows[1].2.value, None);
    assert_eq!(rows[3].2.value, Some(10));
}

#[test]
fn only_matched_statuses_need_ordered_times() {
    let mut state = EndrosementsState::default();
    state.endorsement_rights = rights();
    let mut unordered = timed_status();
    unordered.slot = 42;
    unordered.received_hash_time = Some(500);
    let statuses = vec![("stray".to_string(), unordered.clone()), ("op".to_string(), status(1, "decoded"))];
    assert!(check_statuses(&state, &statuses));
    unordered.slot = 1;
    let matched = vec![("bad".to_string(), unordered)];
    assert!(!check_statuses(&state, &matched));
}

#[test]
fn endorsing_panel_shows_the_head_or_the_last_endorsement() {
    let mut state = EndrosementsState::default();
    let head = Timestamp { unix_seconds: 0, nanosecond: 1_000 };
    let application = TextMap::new();
    assert!(state.endorsing_panel(50, head, "B1", &application).is_none());
    state.endorsement_rights_with_time = EndorsementRightsWithTime::new(&vec![right(50, Some(0)), right(60, None)]);
    state.mempool_stats_received(vec![("b".to_string(), op_stats())], 50);
    let (level, summary) = state.endorsing_panel(50, head, "B1", &application).unwrap();
    assert_eq!(level, 50);
    assert_eq!(summary, EndorsementOperationSummary::default());
    let mut application = TextMap::new();
    application.insert("B1".to_string(), block_stats());
    let (_, summary) = state.endorsing_panel(50, head, "B1", &application).unwrap();
    assert_eq!(summary.validated, Some(30));
    state.last_endrosement_operation_level = 50;
    let (level, _) = state.endorsing_panel(55, head, "B5", &application).unwrap();
    assert_eq!(level, 50);
    assert!(state.endorsing_panel(61, head, "B6", &application).is_none());
}
