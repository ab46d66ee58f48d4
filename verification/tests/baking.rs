use tezedge_tui::baking::{
    ApplicationSummary, BakingRights, BakingRightsPerLevel, BakingState, BakingSummary,
    BlockApplicationProtocolStatistics, BlockApplicationStatistics, BlockApplicationSummary,
    PerPeerBlockStatistics, calculate_percentage, histogram_fits, ToHistogramData,
};
use tezedge_tui::timing::{check_countdown, Timestamp};
use tezedge_tui::extensions::{CellStyle, Color};

fn block(hash: &str) -> BlockApplicationStatistics {
    BlockApplicationStatistics {
        block_hash: hash.to_string(),
        block_timestamp: 0,
        receive_timestamp: 1_000,
        baker: None,
        baker_priority: None,
        download_block_header_start: Some(10),
        download_block_header_end: Some(15),
        download_block_operations_start: Some(16),
        download_block_operations_end: Some(40),
        load_data_start: Some(41),
        load_data_end: Some(44),
        precheck_start: Some(45),
        precheck_end: Some(50),
        apply_block_start: Some(51),
        apply_block_end: Some(80),
        store_result_start: Some(81),
        store_result_end: Some(90),
        send_start: Some(91),
        send_end: Some(93),
        protocol_times: Some(BlockApplicationProtocolStatistics {
            apply_start: 52,
            operations_decoding_start: 53,
            operations_decoding_end: 55,
            operations_metadata_encoding_start: 70,
            operations_metadata_encoding_end: 74,
            begin_application_start: 56,
            begin_application_end: 58,
            finalize_block_start: 60,
            finalize_block_end: 65,
            collect_new_rolls_owner_snapshots_start: 66,
            collect_new_rolls_owner_snapshots_end: 67,
            commit_start: 75,
            commit_end: 78,
            apply_end: 79,
        }),
        injected: Some(2_000_000_500),
    }
}

fn peer(address: &str, hash: &str, received: Option<u64>, sent: Option<u64>) -> PerPeerBlockStatistics {
    PerPeerBlockStatistics {
        address: address.to_string(),
        block_hash: hash.to_string(),
        node_id: format!("id-{}", address),
        received_time: received,
        sent_time: sent,
        sent_end_time: None,
        sent_start_time: None,
        get_operations_recv_end_time: None,
        get_operations_recv_start_time: None,
        operations_send_start_time: None,
        operations_send_end_time: None,
    }
}

fn right(level: i32, time: Option<i64>) -> BakingRightsPerLevel {
    BakingRightsPerLevel {
        level,
        priority: 0,
        delegate: "tz1me".to_string(),
        estimated_time: time.map(|t| Timestamp { unix_seconds: t, nanosecond: 0 }),
    }
}

#[test]
fn application_summary_measures_each_step() {
    let b = block("B");
    assert!(b.check_spans());
    let s = BlockApplicationSummary::from(&b);
    assert_eq!(s.download_block_header, Some(5));
    assert_eq!(s.download_block_operations, Some(24));
    assert_eq!(s.download, Some(30));
    assert_eq!(s.load_data, Some(3));
    assert_eq!(s.precheck, Some(5));
    assert_eq!(s.protocol_apply_block, Some(29));
    assert_eq!(s.store_data, Some(9));
    assert_eq!(s.send_data, Some(2));
    assert_eq!(s.apply, Some(27));
    assert_eq!(s.apply_decoding_operations, Some(2));
    assert_eq!(s.apply_encoding_operations_metadata, Some(4));
    assert_eq!(s.apply_begin_application, Some(2));
    assert_eq!(s.apply_collecting_new_rolls, Some(1));
    assert_eq!(s.apply_commit, Some(3));
    assert_eq!(s.injected, Some(2_000_000_500));
}

#[test]
fn steps_that_end_before_they_start_are_detected() {
    let mut b = block("B");
    b.precheck_end = Some(1);
    assert!(!b.check_spans());
}

#[test]
fn baking_summary_takes_injection_relative_to_the_previous_head() {
    let s = BakingSummary::new(
        7,
        Timestamp { unix_seconds: 2, nanosecond: 0 },
        BlockApplicationSummary::from(&block("B")),
        Vec::new(),
    );
    assert_eq!(s.level, 7);
    assert_eq!(s.injected, Some(500));
    let d = BakingSummary::default();
    assert_eq!(d.level, 0);
    assert_eq!(d.injected, None);
}

#[test]
fn peer_summary_takes_the_earliest_times() {
    let mut a = peer("a", "B", Some(30), None);
    a.sent_end_time = Some(70);
    let mut b = peer("b", "B", Some(0), None);
    b.sent_end_time = Some(40);
    b.get_operations_recv_end_time = Some(90);
    let c = peer("c", "B", None, None);
    let s = ApplicationSummary::from(&vec![a, b, c]);
    assert_eq!(s.send_block_header, Some(40));
    assert_eq!(s.block_operations_requested, Some(90));
    assert_eq!(s.block_operations_sent, None);
    // a received time of zero is not a time
    assert_eq!(s.block_header_received_back, Some(30));
}

#[test]
fn rights_keep_the_last_time_given_for_a_level_and_cleanup_drops_older() {
    let mut rights = BakingRights::new(&vec![right(10, None), right(12, Some(100)), right(10, Some(5))]);
    assert_eq!(rights.next_baking_level(9), Some(10));
    assert_eq!(rights.next_baking_level(11), Some(12));
    let head = Timestamp { unix_seconds: 0, nanosecond: 0 };
    assert_eq!(rights.next_baking_at(10, &head, 60, 0), Some((10, "now".to_string())));
    assert_eq!(rights.next_baking_at(11, &head, 60, 0), Some((12, "1 minutes".to_string())));
    assert_eq!(rights.next_baking_at(11, &head, 60, -172_800), Some((12, "2 days".to_string())));
    rights.cleanup(&11);
    assert_eq!(rights.next_baking_level(0), Some(12));
    rights.add(&vec![right(3, None)]);
    assert_eq!(rights.next_baking_level(0), Some(3));
    rights.cleanup(&13);
    assert_eq!(rights.next_baking_level(0), None);
}

#[test]
fn application_statistics_are_kept_by_hash() {
    let mut state = BakingState::default();
    state.application_statistics_received(vec![block("B1"), block("B2")]);
    assert_eq!(state.application_statistics.len(), 2);
    assert!(state.application_statistics.get("B2").is_some());
    assert!(state.application_statistics.get("B3").is_none());
}

#[test]
fn peer_statistics_fill_the_table_and_are_kept_by_hash() {
    let mut state = BakingState::default();
    state.per_peer_statistics_received(vec![peer("b", "B1", Some(2), None), peer("a", "B1", Some(1), None)], true);
    let addresses: Vec<&str> = state.baking_table.content.iter().map(|p| p.address.as_str()).collect();
    assert_eq!(addresses, vec!["a", "b"]);
    assert_eq!(state.per_peer_block_statistics.get("B1").unwrap().len(), 2);
    state.per_peer_statistics_received(Vec::new(), true);
    assert!(state.baking_table.content.is_empty());
    assert_eq!(state.per_peer_block_statistics.get("B1").unwrap().len(), 2);
}

#[test]
fn head_change_records_a_baked_block() {
    let mut state = BakingState::default();
    state.baking_rights.add(&vec![right(5, None)]);
    state.application_statistics_received(vec![block("B5")]);
    state.per_peer_statistics_received(vec![peer("a", "B5", Some(1), None)], true);
    let previous = Timestamp { unix_seconds: 2, nanosecond: 0 };
    state.head_changed(4, &"B4".to_string(), previous);
    assert_eq!(state.last_baked_block_level, None);
    state.head_changed(5, &"B5".to_string(), previous);
    assert_eq!(state.last_baked_block_level, Some(5));
    assert_eq!(state.last_baked_block_hash, Some("B5".to_string()));
    assert_eq!(state.last_baking_summary.level, 5);
    assert_eq!(state.last_baking_summary.injected, Some(500));
    assert_eq!(state.last_baking_summary.per_peer.len(), 1);
}

#[test]
fn histogram_counts_every_receipt() {
    let peers = vec![
        peer("a", "B", Some(50_000_000), None),
        peer("b", "B", Some(350_000_000), None),
        peer("c", "B", None, None),
    ];
    assert!(histogram_fits(&peers));
    let bars = peers.to_histogram_data();
    let total: u64 = bars.iter().map(|(_, n)| n).sum();
    assert_eq!(total, 3);
    assert!(bars.len() >= 4);
    assert!(bars.windows(2).all(|w| w[0].0 < w[1].0));
    assert!(!histogram_fits(&vec![peer("x", "B", Some(u64::MAX), None)]));
}

#[test]
fn application_summary_rows_follow_the_steps() {
    let s = BlockApplicationSummary::from(&block("B"));
    let rows = s.to_table_data();
    let labels: Vec<&str> = rows.iter().map(|r| r.1.as_str()).collect();
    assert_eq!(
        labels,
        vec![
            "Download",
            "Block Header",
            "Block Operations",
            "Load Data",
            "Protocol Apply Block",
            "Apply",
            "Begin application",
            "Decoding operations",
            "Encoding operations metadata",
            "Collecting new rolls",
            "Commit",
            "Store application result",
        ]
    );
    assert_eq!(rows[0].0, "");
    assert_eq!(rows[1].0, "\u{251c}\u{2500} ");
    assert_eq!(rows[10].0, "   \u{2514}\u{2500} ");
    assert_eq!(rows[0].2.value, Some(30));
    assert_eq!(rows[0].2.get_value(), 30);
    assert_eq!(rows[0].2.style, CellStyle { fg: Some(Color::White), bg: None, dim: true });
    assert_eq!(rows[11].2.value, Some(9));
    let empty = BlockApplicationSummary::default().to_table_data();
    assert_eq!(empty[0].2.value, None);
    assert_eq!(empty[0].2.get_value(), 0);
    assert_eq!(empty[0].2.get_style(), CellStyle { fg: None, bg: None, dim: false });
}

#[test]
fn baking_summary_rows_replace_the_download_with_the_injection() {
    let s = BakingSummary::new(
        7,
        Timestamp { unix_seconds: 2, nanosecond: 0 },
        BlockApplicationSummary::from(&block("B")),
        vec![peer("a", "B", Some(60_000_000), Some(3))],
    );
    let rows = s.to_table_data();
    let labels: Vec<&str> = rows.iter().map(|r| r.1.as_str()).collect();
    assert_eq!(
        labels,
        vec![
            "Injected",
            "Load Data",
            "Protocol Apply Block",
            "Apply",
            "Begin application",
            "Decoding operations",
            "Encoding operations metadata",
            "Collecting new rolls",
            "Commit",
            "Store application result",
            "Block Header Sent",
            "Block Header Received Back",
            "Block Operations Requested",
            "Block Operations Sent",
        ]
    );
    assert_eq!(rows[0].2.value, Some(500));
    assert_eq!(rows[11].2.value, Some(60_000_000));
    assert_eq!(
        rows[11].2.style,
        CellStyle { fg: Some(Color::LightRed), bg: None, dim: true }
    );
}

#[test]
fn percentage_of_the_screen_rounds_down() {
    assert_eq!(calculate_percentage(200, 60), 120);
    assert_eq!(calculate_percentage(99, 60), 59);
    assert_eq!(calculate_percentage(0, 60), 0);
}

#[test]
fn peer_summary_adds_the_header_sent_row() {
    let mut stats = vec![peer("a", "B", None, None), peer("b", "B", None, None)];
    stats[0].sent_end_time = Some(70);
    stats[1].sent_end_time = Some(40);
    let summary = ApplicationSummary::from(&stats);
    let mut rows = BlockApplicationSummary::default().to_table_data();
    summary.extend_table_data(&mut rows);
    assert_eq!(rows.len(), 13);
    assert_eq!(rows[12].1, "Send Block Header");
    assert_eq!(rows[12].2.value, Some(40));
}

#[test]
fn only_the_next_right_with_a_time_needs_to_fit_the_countdown() {
    // a right far beyond the next one does not stop the countdown
    let rights = BakingRights::new(&vec![right(12, Some(100)), right(i32::MAX, Some(5))]);
    assert!(check_countdown(&rights.rights, 11, 60));
    let head = Timestamp { unix_seconds: 0, nanosecond: 0 };
    assert_eq!(rights.next_baking_at(11, &head, 60, 0), Some((12, "1 minutes".to_string())));
    // a next right without a time is shown without a countdown
    let untimed = BakingRights::new(&vec![right(i32::MAX, None)]);
    assert!(check_countdown(&untimed.rights, i32::MIN, 60));
    assert_eq!(untimed.next_baking_at(i32::MIN, &head, 60, 0), Some((i32::MAX, String::new())));
    // a next right whose countdown leaves the i32 range does not fit
    assert!(!check_countdown(&rights.rights, -2_000_000_000, 60));
    assert!(!check_countdown(&rights.rights, i32::MIN, 1));
}
