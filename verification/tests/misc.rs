use tezedge_tui::rpc::{
    baking_rights_query, delegate_cycle_query, level_block_query, level_query, RpcCall, RpcState,
    RpcTarget,
};
use tezedge_tui::synchronization::{
    BlockApplicationStatus, BlockInfo, BlockStatus, ChainStatus, Cycle, IncomingTransferMetrics,
    CycleProgress, PeerMetrics, PeriodInfoState, SynchronizationState, WebsocketMessage,
};
use tezedge_tui::terminal_ui::{ActivePage, ActiveWidget, UiState};
use tezedge_tui::text::{str_eq, usize_to_string};
use tezedge_tui::level_map::LevelMap;
use tezedge_tui::text_map::TextMap;
use tezedge_tui::timing::{div_toward_zero, until_string, Timestamp};

#[test]
fn countdown_text_uses_the_largest_whole_unit() {
    assert_eq!(until_string(2 * 86_400 + 5), "2 days");
    assert_eq!(until_string(3 * 3_600 + 59), "3 hours");
    assert_eq!(until_string(5 * 60 + 1), "5 minutes");
    assert_eq!(until_string(59), "59 seconds");
    assert_eq!(until_string(0), "now");
    assert_eq!(until_string(-59), "now");
    assert_eq!(until_string(-61), "-1 minutes");
    assert_eq!(until_string(-90_000), "-1 days");
    assert_eq!(until_string(i64::MIN), format!("{} days", i64::MIN / 86_400));
}

#[test]
fn division_rounds_toward_zero() {
    assert_eq!(div_toward_zero(7, 2), 3);
    assert_eq!(div_toward_zero(-7, 2), -3);
    assert_eq!(div_toward_zero(i64::MIN, 2), i64::MIN / 2);
    assert_eq!(div_toward_zero(i64::MIN, 86_400), i64::MIN / 86_400);
}

#[test]
fn timestamps_know_their_range() {
    assert!(Timestamp::epoch().is_valid());
    assert!(!Timestamp { unix_seconds: 0, nanosecond: 1_000_000_000 }.is_valid());
    assert!(!Timestamp { unix_seconds: 253_402_300_800, nanosecond: 0 }.is_valid());
    assert_eq!(Timestamp { unix_seconds: -2, nanosecond: 5 }.unix_timestamp_nanos(), -1_999_999_995);
}

#[test]
fn queries_name_level_block_delegate_and_cycle() {
    assert_eq!(level_query(-12), "?level=-12");
    assert_eq!(level_block_query(7, "BLk"), "?level=7&block=BLk");
    assert_eq!(delegate_cycle_query("tz1me", 3), "?delegate=tz1me&cycle=3");
    assert_eq!(baking_rights_query("tz1me", 12), "?delegate=tz1me&max_priority=0&cycle=12");
}

#[test]
fn calls_know_their_paths() {
    assert_eq!(RpcCall::new(RpcTarget::CurrentHeadHeader, None).to_url(), "chains/main/blocks/head/header");
    assert_eq!(RpcCall::new(RpcTarget::BestRemoteLevel, None).to_url(), "dev/peers/best_remote_level");
    let call = RpcCall::new(RpcTarget::BakingRights, Some("?x".to_string()));
    let copy = call.clone();
    assert_eq!(copy.query_arg, Some("?x".to_string()));
}

#[test]
fn a_request_then_its_answer_succeeds() {
    assert_eq!(RpcState::default(), RpcState::Idle);
    assert_eq!(RpcState::Idle.on_request().on_response(), RpcState::Success);
    assert_eq!(RpcState::Idle.on_response(), RpcState::Idle);
    assert_eq!(RpcState::Success.on_request(), RpcState::Pending);
}

#[test]
fn texts_compare_by_content() {
    assert!(str_eq("abc", "abc"));
    assert!(!str_eq("abc", "abd"));
    assert!(!str_eq("ab", "abc"));
}

#[test]
fn text_map_keeps_the_last_value_of_a_key() {
    let mut m: TextMap<u32> = TextMap::new();
    assert!(m.is_empty());
    m.insert("a".to_string(), 1);
    m.insert("b".to_string(), 2);
    m.insert("a".to_string(), 3);
    assert_eq!(m.get("a"), Some(&3));
    assert_eq!(m.get("b"), Some(&2));
    assert_eq!(m.get("c"), None);
    assert_eq!(m.len(), 2);
}

#[test]
fn pages_have_indices_hotkeys_and_names() {
    assert_eq!(ActivePage::Endorsements.to_index(), 0);
    assert_eq!(ActivePage::Synchronization.to_index(), 3);
    assert_eq!(ActivePage::Baking.hotkey(), "F2");
    assert_eq!(ActivePage::Statistics.to_string(), "Statistics");
    assert_eq!(ActivePage::all().len(), 4);
    assert_eq!(ActivePage::from_function_key(1), Some(ActivePage::Endorsements));
    assert_eq!(ActivePage::from_function_key(4), Some(ActivePage::Synchronization));
    assert_eq!(ActivePage::from_function_key(5), None);
    let ui = UiState::default();
    assert_eq!(ui.active_page, ActivePage::Endorsements);
    assert_eq!(ui.active_widget, ActiveWidget::EndorserTable);
}

#[test]
fn period_view_keeps_the_selection_in_sight() {
    let mut p = PeriodInfoState::default();
    p.displayable_container_count = 4;
    assert_eq!(p.offset(), 0);
    p.select(Some(10));
    assert_eq!(p.selected(), Some(10));
    assert_eq!(p.offset(), 6);
    p.select(Some(3));
    assert_eq!(p.offset(), 0);
}

#[test]
fn blocks_and_cycles_report_completion() {
    let b = BlockStatus { group: 1, numbers_of_blocks: 10, finished_blocks: 10, applied_blocks: 3, download_duration: None };
    assert!(b.all_downloaded());
    let c = Cycle { id: 1, headers: 5, operations: 5, applications: 5, duration: None };
    assert!(!c.all_applied());
    let c = Cycle { duration: Some(0), ..c };
    assert!(c.all_applied());
    let c = Cycle { applications: 4, ..c };
    assert!(!c.all_applied());
}

#[test]
fn websocket_messages_replace_what_the_screen_shows_the_last_one_winning() {
    let mut s = SynchronizationState::default();
    let mut first = IncomingTransferMetrics::default();
    first.downloaded_blocks = 1;
    let mut second = IncomingTransferMetrics::default();
    second.downloaded_blocks = 2;
    s.messages_received(vec![
        WebsocketMessage::IncomingTransfer(first),
        WebsocketMessage::ChainStatus(ChainStatus {
            chain: vec![Cycle { id: 9, headers: 1, operations: 1, applications: 1, duration: None }],
        }),
        WebsocketMessage::IncomingTransfer(second),
        WebsocketMessage::BlockApplicationStatus(BlockApplicationStatus {
            current_application_speed: 0,
            average_application_speed: 0,
            last_applied_block: Some(BlockInfo { hash: "B".to_string(), level: 4 }),
        }),
        WebsocketMessage::PeersMetrics(vec![PeerMetrics {
            id: "p".to_string(),
            ip_address: "1.2.3.4".to_string(),
            transferred_bytes: 10,
            average_transfer_speed: 0,
            current_transfer_speed: 0,
        }]),
    ]);
    assert_eq!(s.incoming_transfer.downloaded_blocks, 2);
    assert_eq!(s.cycle_data.len(), 1);
    assert_eq!(s.cycle_data[0].id, 9);
    assert_eq!(s.aplication_status.last_applied_block.as_ref().unwrap().level, 4);
    assert_eq!(s.peer_metrics.len(), 1);
    assert!(s.block_metrics.is_empty());
}

#[test]
fn adding_seconds_saturates_at_the_ends_of_the_dates() {
    let t = Timestamp { unix_seconds: 100, nanosecond: 7 };
    assert_eq!(t.saturating_add_seconds(30), Timestamp { unix_seconds: 130, nanosecond: 7 });
    assert_eq!(t.saturating_add_seconds(-130), Timestamp { unix_seconds: -30, nanosecond: 7 });
    let last = Timestamp { unix_seconds: 253_402_300_790, nanosecond: 3 };
    assert_eq!(
        last.saturating_add_seconds(60),
        Timestamp { unix_seconds: 253_402_300_799, nanosecond: 999_999_999 }
    );
    let first = Timestamp { unix_seconds: -377_705_116_790, nanosecond: 3 };
    assert_eq!(
        first.saturating_add_seconds(-60),
        Timestamp { unix_seconds: -377_705_116_800, nanosecond: 0 }
    );
}

#[test]
fn calls_are_shown_with_their_query() {
    let call = RpcCall::new(RpcTarget::EndorsementRights, Some("?level=5&block=\"B\"".to_string()));
    assert_eq!(call.to_string(), "EndorsementRights - Query args: Some(\"?level=5&block=\\\"B\\\"\")");
    let plain = RpcCall::new(RpcTarget::BestRemoteLevel, None);
    assert_eq!(plain.to_string(), "BestRemoteLevel - Query args: None");
}

#[test]
fn text_keys_ascend_once_each() {
    use_keys_check();
}

fn use_keys_check() {
    let ok: Vec<(String, u8)> = vec![("a".to_string(), 1), ("ab".to_string(), 2), ("b".to_string(), 3)];
    assert!(tezedge_tui::text_map::check_keys_ascending(&ok));
    let repeated: Vec<(String, u8)> = vec![("a".to_string(), 1), ("a".to_string(), 2)];
    assert!(!tezedge_tui::text_map::check_keys_ascending(&repeated));
    let descending: Vec<(String, u8)> = vec![("b".to_string(), 1), ("a".to_string(), 2)];
    assert!(!tezedge_tui::text_map::check_keys_ascending(&descending));
}

#[test]
fn counts_are_written_in_decimal() {
    assert_eq!(usize_to_string(0), "0");
    assert_eq!(usize_to_string(9), "9");
    assert_eq!(usize_to_string(10), "10");
    assert_eq!(usize_to_string(1_234_567), "1234567");
    assert_eq!(usize_to_string(usize::MAX), usize::MAX.to_string());
}

#[test]
fn level_maps_find_the_next_level_and_drop_the_past() {
    let mut m: LevelMap<u8> = LevelMap::new();
    assert!(m.is_empty());
    m.insert(30, 3);
    m.insert(10, 1);
    m.insert(20, 2);
    m.insert(20, 4);
    assert!(!m.is_empty());
    assert_eq!(m.get(20), Some(&4));
    assert_eq!(m.get(25), None);
    assert_eq!(m.next_from(i32::MIN), Some((10, 1)));
    assert_eq!(m.next_from(11), Some((20, 4)));
    assert_eq!(m.next_from(30), Some((30, 3)));
    assert_eq!(m.next_from(31), None);
    m.retain_from(20);
    assert_eq!(m.next_from(i32::MIN), Some((20, 4)));
    assert_eq!(m.get(10), None);
    m.retain_from(i32::MAX);
    assert!(m.is_empty());
}

#[test]
fn the_period_map_colours_cycles_by_their_progress() {
    let mut s = SynchronizationState::default();
    assert_eq!(s.cycle_progress(0), CycleProgress::Pending);
    s.block_metrics = vec![
        BlockStatus { group: 0, numbers_of_blocks: 10, finished_blocks: 10, applied_blocks: 10, download_duration: None },
        BlockStatus { group: 1, numbers_of_blocks: 10, finished_blocks: 10, applied_blocks: 3, download_duration: None },
        BlockStatus { group: 2, numbers_of_blocks: 10, finished_blocks: 4, applied_blocks: 0, download_duration: None },
    ];
    s.cycle_data = vec![
        Cycle { id: 0, headers: 5, operations: 5, applications: 5, duration: Some(1) },
        Cycle { id: 1, headers: 5, operations: 5, applications: 2, duration: Some(1) },
        Cycle { id: 2, headers: 5, operations: 1, applications: 0, duration: None },
    ];
    assert_eq!(s.cycle_progress(0), CycleProgress::Applied);
    assert_eq!(s.cycle_progress(1), CycleProgress::Downloaded);
    assert_eq!(s.cycle_progress(2), CycleProgress::Pending);
    assert_eq!(s.cycle_progress(3), CycleProgress::Pending);
}
