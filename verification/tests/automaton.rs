use tezedge_tui::automaton::{
    check_effects_computable, check_reducible, effects, event_actions, reducer, response_action,
    Action, Effect, State,
};
use tezedge_tui::baking::{BakingRightsGetAction, BakingRightsPerLevel, BakingRightsReceivedAction};
use tezedge_tui::endorsements::{
    EndorsementRightsWithTimePerLevel, EndorsementStatusSortable, EndorsementsRightsWithTimeReceivedAction,
};
use tezedge_tui::rpc::{CurrentHeadHeader, CurrentHeadMetadata, LevelInfo, NetworkConstants, RpcResponse, RpcTarget};
use tezedge_tui::synchronization::WebsocketReadAction;
use tezedge_tui::terminal_ui::{
    ActivePage, ActiveWidget, ChangeScreenAction, CurrentHeadHeaderChangedAction,
    CurrentHeadHeaderRecievedAction, CurrentHeadMetadataChangedAction, CycleChangedAction,
    DrawScreenAction, DrawScreenSuccessAction, Key, TuiDeltaToggleKeyPushedAction,
    TuiDownKeyPushedAction, TuiEvent, TuiRightKeyPushedAction, TuiUpKeyPushedAction,
    TuiWidgetSelectionKeyPushedAction,
};
use tezedge_tui::timing::Timestamp;

fn header(level: i32, hash: &str, seconds: i64) -> CurrentHeadHeader {
    let mut h = CurrentHeadHeader::default();
    h.level = level;
    h.hash = hash.to_string();
    h.timestamp = Timestamp { unix_seconds: seconds, nanosecond: 0 };
    h
}

fn reduce(state: &mut State, action: Action) {
    assert!(check_reducible(state, &action));
    reducer(state, action);
}

fn rpc_target(e: &Effect) -> Option<(RpcTarget, Option<String>)> {
    match e {
        Effect::Dispatch(Action::RpcRequest(r)) => Some((r.call.target, r.call.query_arg.clone())),
        _ => None,
    }
}

#[test]
fn new_state_starts_on_the_endorsement_screen() {
    let s = State::new(Some("tz1me".to_string()));
    assert!(s.delta_toggle);
    assert_eq!(s.ui.active_page, ActivePage::Endorsements);
    assert_eq!(s.baker_address, Some("tz1me".to_string()));
}

#[test]
fn toggling_deltas_twice_gives_the_state_back() {
    let mut s = State::new(None);
    reduce(&mut s, Action::TuiDeltaToggleKeyPushed(TuiDeltaToggleKeyPushedAction {}));
    assert!(!s.delta_toggle);
    reduce(&mut s, Action::TuiDeltaToggleKeyPushed(TuiDeltaToggleKeyPushedAction {}));
    assert!(s.delta_toggle);
}

#[test]
fn changing_screen_focuses_its_first_widget_and_tab_rotates() {
    let mut s = State::new(None);
    reduce(&mut s, Action::ChangeScreen(ChangeScreenAction { screen: ActivePage::Synchronization }));
    assert_eq!(s.ui.active_widget, ActiveWidget::PeriodInfo);
    reduce(&mut s, Action::TuiWidgetSelectionKeyPushed(TuiWidgetSelectionKeyPushedAction {}));
    assert_eq!(s.ui.active_widget, ActiveWidget::PeerTable);
    reduce(&mut s, Action::TuiWidgetSelectionKeyPushed(TuiWidgetSelectionKeyPushedAction {}));
    assert_eq!(s.ui.active_widget, ActiveWidget::PeriodInfo);
    reduce(&mut s, Action::ChangeScreen(ChangeScreenAction { screen: ActivePage::Statistics }));
    assert_eq!(s.ui.active_widget, ActiveWidget::StatisticsMainTable);
    reduce(&mut s, Action::TuiWidgetSelectionKeyPushed(TuiWidgetSelectionKeyPushedAction {}));
    assert_eq!(s.ui.active_widget, ActiveWidget::StatisticsDetailsTable);
}

#[test]
fn drawing_sets_the_rendered_columns_of_the_screen() {
    let mut s = State::new(None);
    reduce(&mut s, Action::DrawScreen(DrawScreenAction {}));
    assert_eq!(s.endorsmenents.endorsement_table.modified_headers[0], "Slots \u{25B2}");
    reduce(&mut s, Action::DrawScreenSuccess(DrawScreenSuccessAction { screen_width: 60 }));
    assert_eq!(s.ui.screen_width, 60);
    // 2 of padding and the fixed Min(11), Min(8), then Min(14)+1 and Min(17)+1: 54 of 60
    assert_eq!(s.endorsmenents.endorsement_table.rendered(), 6);
    let too_wide = Action::DrawScreenSuccess(DrawScreenSuccessAction { screen_width: 2000 });
    reduce(&mut s, Action::ChangeScreen(ChangeScreenAction { screen: ActivePage::Baking }));
    assert!(!check_reducible(&s, &too_wide));
}

#[test]
fn arrows_move_the_selection_of_the_focused_table() {
    let mut s = State::new(None);
    reduce(&mut s, Action::TuiDownKeyPushedAction(TuiDownKeyPushedAction {}));
    assert_eq!(s.endorsmenents.endorsement_table.table_state.selected, Some(0));
    s.endorsmenents.endorsement_table.set_rendered(6);
    reduce(&mut s, Action::TuiRightKeyPushed(TuiRightKeyPushedAction {}));
    assert_eq!(s.endorsmenents.endorsement_table.selected(), 1);
}

#[test]
fn moving_down_an_empty_statistics_table_is_refused() {
    let mut s = State::new(None);
    reduce(&mut s, Action::ChangeScreen(ChangeScreenAction { screen: ActivePage::Statistics }));
    assert!(!check_reducible(&s, &Action::TuiDownKeyPushedAction(TuiDownKeyPushedAction {})));
}

#[test]
fn a_higher_head_is_taken_and_a_lower_one_ignored() {
    let s = State::new(None);
    let out = effects(&s, &Action::CurrentHeadHeaderReceived(CurrentHeadHeaderRecievedAction {
        current_head_header: header(5, "B5", 100),
    }));
    assert_eq!(out.len(), 1);
    match &out[0] {
        Effect::Dispatch(Action::CurrentHeadHeaderChanged(c)) => assert_eq!(c.current_head_header.level, 5),
        _ => panic!("the head changes"),
    }
    let out = effects(&s, &Action::CurrentHeadHeaderReceived(CurrentHeadHeaderRecievedAction {
        current_head_header: header(0, "B0", 100),
    }));
    assert!(out.is_empty());
}

#[test]
fn a_new_head_moves_the_heads_and_asks_for_rights() {
    let mut s = State::new(None);
    reduce(&mut s, Action::CurrentHeadHeaderChanged(CurrentHeadHeaderChangedAction { current_head_header: header(5, "B5", 100) }));
    assert_eq!(s.current_head_header.level, 5);
    assert_eq!(s.previous_head_header.level, 0);
    let out = effects(&s, &Action::CurrentHeadHeaderChanged(CurrentHeadHeaderChangedAction {
        current_head_header: header(5, "B5", 100),
    }));
    assert_eq!(out.len(), 2);
    assert_eq!(rpc_target(&out[0]), Some((RpcTarget::EndorsementRights, Some("?level=5&block=B5".to_string()))));
    match &out[1] {
        Effect::Dispatch(Action::EndorsementsRightsWithTimeGet(_)) => {},
        _ => panic!("the rights with time are asked for"),
    }
    reduce(&mut s, Action::CurrentHeadHeaderChanged(CurrentHeadHeaderChangedAction { current_head_header: header(6, "B6", 130) }));
    assert_eq!(s.previous_head_header.hash, "B5");
}

#[test]
fn a_baked_level_is_recorded_when_the_head_moves_past_it() {
    let mut s = State::new(Some("tz1me".to_string()));
    reduce(&mut s, Action::BakingRightsReceived(BakingRightsReceivedAction {
        rights: vec![BakingRightsPerLevel { level: 5, priority: 0, delegate: "tz1me".to_string(), estimated_time: None }],
    }));
    reduce(&mut s, Action::CurrentHeadHeaderChanged(CurrentHeadHeaderChangedAction { current_head_header: header(5, "B5", 100) }));
    assert_eq!(s.baking.last_baked_block_level, None);
    reduce(&mut s, Action::CurrentHeadHeaderChanged(CurrentHeadHeaderChangedAction { current_head_header: header(6, "B6", 130) }));
    assert_eq!(s.baking.last_baked_block_level, Some(5));
    assert_eq!(s.baking.last_baked_block_hash, Some("B5".to_string()));
}

#[test]
fn rights_with_time_are_asked_for_the_cycle_of_the_head() {
    let mut s = State::new(Some("tz1me".to_string()));
    reduce(&mut s, Action::CurrentHeadHeaderChanged(CurrentHeadHeaderChangedAction { current_head_header: header(8192, "B", 100) }));
    let out = effects(&s, &Action::EndorsementsRightsWithTimeGet(tezedge_tui::endorsements::EndorsementsRightsWithTimeGetAction {}));
    assert_eq!(rpc_target(&out[0]), Some((RpcTarget::EndorsementRightsWithTime, Some("?delegate=tz1me&cycle=2".to_string()))));
    reduce(&mut s, Action::EndorsementsRightsWithTimeReceived(EndorsementsRightsWithTimeReceivedAction {
        rights: vec![EndorsementRightsWithTimePerLevel { level: 9000, slots: vec![1], delegate: "tz1me".to_string(), estimated_time: None }],
    }));
    let out = effects(&s, &Action::CurrentHeadHeaderChanged(CurrentHeadHeaderChangedAction { current_head_header: header(8193, "C", 130) }));
    assert_eq!(out.len(), 1);
    let anonymous = State::new(None);
    assert!(effects(&anonymous, &Action::EndorsementsRightsWithTimeGet(tezedge_tui::endorsements::EndorsementsRightsWithTimeGetAction {})).is_empty());
}

#[test]
fn a_new_cycle_asks_for_the_rights_of_the_preserved_cycle() {
    let mut s = State::new(Some("tz1me".to_string()));
    s.network_constants = NetworkConstants { minimal_block_delay: 30, preserved_cycles: 5 };
    let cycle = Action::CycleChanged(CycleChangedAction { new_cycle: 3, at_level: 12_288 });
    assert!(check_effects_computable(&s, &cycle));
    let out = effects(&s, &cycle);
    match &out[0] {
        Effect::Dispatch(Action::BakingRightsGet(g)) => assert_eq!(g.cycle, 8),
        _ => panic!("the rights are asked for"),
    }
    let out = effects(&s, &Action::BakingRightsGet(BakingRightsGetAction { cycle: 8 }));
    assert_eq!(rpc_target(&out[0]), Some((RpcTarget::BakingRights, Some("?delegate=tz1me&max_priority=0&cycle=8".to_string()))));
    let meta = CurrentHeadMetadata {
        level_info: LevelInfo { cycle: 4, cycle_position: 0, expected_commitment: false, level: 0, level_position: 0 },
    };
    let out = effects(&s, &Action::CurrentHeadMetadataChanged(CurrentHeadMetadataChangedAction { new_metadata: meta }));
    let cycles: Vec<i32> = out
        .iter()
        .map(|e| match e {
            Effect::Dispatch(Action::BakingRightsGet(g)) => g.cycle,
            _ => panic!("only rights are asked for"),
        })
        .collect();
    assert_eq!(cycles, vec![4, 5, 6, 7, 8, 9]);
    s.network_constants.preserved_cycles = i32::MAX;
    assert!(!check_effects_computable(&s, &cycle));
}

#[test]
fn ticks_and_keys_become_actions() {
    let (tick, quit) = event_actions(TuiEvent::Tick, 42);
    assert!(!quit);
    assert_eq!(tick.len(), 8);
    assert!(matches!(tick[0], Action::WebsocketRead(WebsocketReadAction {})));
    assert!(matches!(tick[5], Action::ApplicationStatisticsGet(ref a) if a.level == 42));
    let (quit_actions, quit) = event_actions(TuiEvent::Input(Key::F(10), 0), 0);
    assert!(quit);
    assert!(matches!(quit_actions[0], Action::Shutdown(_)));
    let (f1, _) = event_actions(TuiEvent::Input(Key::F(1), 0), 0);
    assert!(matches!(f1[0], Action::ChangeScreen(ref c) if c.screen == ActivePage::Endorsements));
    let (f3, _) = event_actions(TuiEvent::Input(Key::F(3), 0), 0);
    assert_eq!(f3.len(), 2);
    assert!(matches!(f3[0], Action::OperationsStatisticsGet(_)));
    assert!(matches!(f3[1], Action::ChangeScreen(ref c) if c.screen == ActivePage::Statistics));
    let (sort, _) = event_actions(TuiEvent::Input(Key::Char('s'), 4), 0);
    assert!(matches!(sort[0], Action::TuiSortKeyPushed(ref k) if k.modifier == 4));
    let (none, _) = event_actions(TuiEvent::Input(Key::Char('x'), 0), 0);
    assert!(none.is_empty());
    let (none, _) = event_actions(TuiEvent::Resize, 0);
    assert!(none.is_empty());
}

#[test]
fn answers_become_received_actions() {
    let a = response_action(RpcResponse::BestRemoteLevel(Some(7)));
    assert!(matches!(a, Action::BestRemoteLevelReceived(ref b) if b.level == Some(7)));
    let a = response_action(RpcResponse::NetworkConstants(NetworkConstants { minimal_block_delay: 1, preserved_cycles: 2 }));
    assert!(matches!(a, Action::NetworkConstantsReceived(ref n) if n.constants.preserved_cycles == 2));
}

#[test]
fn drawing_asks_to_draw_the_active_screen() {
    let s = State::new(None);
    let out = effects(&s, &Action::DrawScreen(DrawScreenAction {}));
    assert!(matches!(out[0], Effect::Draw(ActivePage::Endorsements)));
    assert!(matches!(effects(&s, &Action::WebsocketRead(WebsocketReadAction {}))[0], Effect::ReadWebsocket));
}

#[test]
fn down_then_up_gives_the_selection_back() {
    let mut s = State::new(None);
    s.endorsmenents.endorsement_table.content = vec![
        EndorsementStatusSortable::new("a".to_string(), 1),
        EndorsementStatusSortable::new("b".to_string(), 2),
        EndorsementStatusSortable::new("c".to_string(), 3),
    ];
    s.endorsmenents.endorsement_table.table_state.select(Some(1));
    reduce(&mut s, Action::TuiDownKeyPushedAction(TuiDownKeyPushedAction {}));
    assert_eq!(s.endorsmenents.endorsement_table.table_state.selected, Some(2));
    reduce(&mut s, Action::TuiUpKeyPushedAction(TuiUpKeyPushedAction {}));
    assert_eq!(s.endorsmenents.endorsement_table.table_state.selected, Some(1));
    s.endorsmenents.endorsement_table.table_state.select(Some(2));
    reduce(&mut s, Action::TuiDownKeyPushedAction(TuiDownKeyPushedAction {}));
    assert_eq!(s.endorsmenents.endorsement_table.table_state.selected, Some(0));
}

#[test]
fn a_head_without_rights_needs_no_valid_times() {
    let mut s = State::new(None);
    s.current_head_header = header(5, "B5", i64::MAX);
    s.previous_head_header = header(4, "B4", i64::MIN);
    let change = Action::CurrentHeadHeaderChanged(CurrentHeadHeaderChangedAction { current_head_header: header(6, "B6", 130) });
    assert!(check_reducible(&s, &change));
    s.baking.baking_rights.add(&vec![BakingRightsPerLevel {
        level: 5,
        priority: 0,
        delegate: "tz1me".to_string(),
        estimated_time: None,
    }]);
    assert!(!check_reducible(&s, &change));
}
