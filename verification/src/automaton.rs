use vstd::prelude::*;

use crate::baking::{
    after_application_statistics, after_baking_head_changed, after_per_peer_statistics,
    with_baking_rights, ApplicationStatisticsBakedGetAction, ApplicationStatisticsBakedReceivedAction,
    ApplicationStatisticsGetAction, ApplicationStatisticsReceivedAction, BakingRightsGetAction,
    BakingRightsReceivedAction, BakingState, BlockBakedAction, PerPeerBlockStatisticsBakedGetAction,
    PerPeerBlockStatisticsBakedReceivedAction, PerPeerBlockStatisticsGetAction,
    PerPeerBlockStatisticsReceivedAction,
};
use crate::endorsements::{
    after_head_changed, after_mempool_stats, after_statuses, endorsement_summary_fits,
    statuses_reducible, with_endorsing_rights, EndorsementRightsWithTime,
    EndorsementsRightsGetAction, EndorsementsRightsReceivedAction,
    EndorsementsRightsWithTimeGetAction, EndorsementsRightsWithTimeReceivedAction,
    EndorsementsStatusesGetAction, EndorsementsStatusesReceivedAction, EndrosementsState,
    MempoolEndorsementStatsGetAction, MempoolEndorsementStatsReceivedAction,
};
use crate::extensions::extended_table::TableState;
use crate::operations::{
    after_main_selection, after_statistics, main_selection_fits, OperationsStatisticsGetAction,
    OperationsStatisticsReceivedAction, OperationsStatisticsState,
};
use crate::rpc::{
    baking_rights_query, baking_rights_query_text, delegate_cycle_query, delegate_cycle_query_text,
    level_block_query, level_block_query_text, level_query, level_query_text, same_header,
    CurrentHeadHeader, CurrentHeadMetadata, NetworkConstants, RpcCall, RpcRequestAction,
    RpcResponse, RpcResponseAction, RpcResponseReadAction, RpcTarget,
};
use crate::timing::div_trunc;
use crate::synchronization::{
    after_messages, SynchronizationState, WebsocketMessageReceivedAction, WebsocketReadAction,
};
use crate::terminal_ui::{
    first_widget, first_widget_of, next_index, next_item, opt_index, previous_index, previous_item,
    rotate_widget, rotated_widget, page_of_function_key, ActivePage, ActiveWidget, Key, TuiEvent, BestRemoteLevelChangedAction,
    BestRemoteLevelGetAction, BestRemoteLevelReceivedAction, ChangeScreenAction,
    CurrentHeadHeaderChangedAction, CurrentHeadHeaderGetAction, CurrentHeadHeaderRecievedAction,
    CurrentHeadMetadataChangedAction, CurrentHeadMetadataGetAction,
    CurrentHeadMetadataReceivedAction, CycleChangedAction, DrawScreenAction,
    DrawScreenFailiureAction, DrawScreenSuccessAction, NetworkConstantsGetAction,
    NetworkConstantsReceivedAction, TuiDeltaToggleKeyPushedAction, TuiDownKeyPushedAction,
    TuiLeftKeyPushedAction, TuiRightKeyPushedAction, TuiSortKeyPushedAction, TuiUpKeyPushedAction,
    TuiWidgetSelectionKeyPushedAction, UiState,
};

verus! {

/// Start the automaton.
#[derive(Debug, Clone)]
pub struct InitAction {}

/// Stop the automaton.
#[derive(Debug, Clone)]
pub struct ShutdownAction {}

/// Everything that can happen to the interface.
#[derive(Debug, Clone)]
pub enum Action {
    Init(InitAction),
    Shutdown(ShutdownAction),
    RpcRequest(RpcRequestAction),
    RpcResponse(RpcResponseAction),
    RpcResponseRead(RpcResponseReadAction),
    WebsocketRead(WebsocketReadAction),
    WebsocketMessageReceived(WebsocketMessageReceivedAction),
    EndorsementsRightsGet(EndorsementsRightsGetAction),
    EndorsementsRightsReceived(EndorsementsRightsReceivedAction),
    EndorsementsStatusesGet(EndorsementsStatusesGetAction),
    EndorsementsStatusesReceived(EndorsementsStatusesReceivedAction),
    EndorsementsRightsWithTimeGet(EndorsementsRightsWithTimeGetAction),
    EndorsementsRightsWithTimeReceived(EndorsementsRightsWithTimeReceivedAction),
    MempoolEndorsementStatsGet(MempoolEndorsementStatsGetAction),
    MempoolEndorsementStatsReceived(MempoolEndorsementStatsReceivedAction),
    CurrentHeadHeaderGet(CurrentHeadHeaderGetAction),
    CurrentHeadHeaderReceived(CurrentHeadHeaderRecievedAction),
    CurrentHeadHeaderChanged(CurrentHeadHeaderChangedAction),
    CycleChanged(CycleChangedAction),
    NetworkConstantsGet(NetworkConstantsGetAction),
    NetworkConstantsReceived(NetworkConstantsReceivedAction),
    CurrentHeadMetadataGet(CurrentHeadMetadataGetAction),
    CurrentHeadMetadataReceived(CurrentHeadMetadataReceivedAction),
    CurrentHeadMetadataChanged(CurrentHeadMetadataChangedAction),
    BestRemoteLevelGet(BestRemoteLevelGetAction),
    BestRemoteLevelReceived(BestRemoteLevelReceivedAction),
    BestRemoteLevelChanged(BestRemoteLevelChangedAction),
    OperationsStatisticsGet(OperationsStatisticsGetAction),
    OperationsStatisticsReceived(OperationsStatisticsReceivedAction),
    ApplicationStatisticsGet(ApplicationStatisticsGetAction),
    ApplicationStatisticsReceived(ApplicationStatisticsReceivedAction),
    PerPeerBlockStatisticsGet(PerPeerBlockStatisticsGetAction),
    PerPeerBlockStatisticsReceived(PerPeerBlockStatisticsReceivedAction),
    BakingRightsReceived(BakingRightsReceivedAction),
    BakingRightsGet(BakingRightsGetAction),
    BlockBaked(BlockBakedAction),
    ApplicationStatisticsBakedGet(ApplicationStatisticsBakedGetAction),
    ApplicationStatisticsBakedReceived(ApplicationStatisticsBakedReceivedAction),
    PerPeerBlockStatisticsBakedGet(PerPeerBlockStatisticsBakedGetAction),
    PerPeerBlockStatisticsBakedReceived(PerPeerBlockStatisticsBakedReceivedAction),
    ChangeScreen(ChangeScreenAction),
    DrawScreen(DrawScreenAction),
    DrawScreenSuccess(DrawScreenSuccessAction),
    DrawScreenFailiure(DrawScreenFailiureAction),
    TuiRightKeyPushed(TuiRightKeyPushedAction),
    TuiLeftKeyPushed(TuiLeftKeyPushedAction),
    TuiUpKeyPushedAction(TuiUpKeyPushedAction),
    TuiDownKeyPushedAction(TuiDownKeyPushedAction),
    TuiSortKeyPushed(TuiSortKeyPushedAction),
    TuiDeltaToggleKeyPushed(TuiDeltaToggleKeyPushedAction),
    TuiWidgetSelectionKeyPushed(TuiWidgetSelectionKeyPushedAction),
}

/// Everything the interface knows and shows.
#[derive(Debug)]
pub struct State {
    pub network_constants: NetworkConstants,
    pub last_applied_level: i32,
    pub current_head_header: CurrentHeadHeader,
    pub current_head_metadata: CurrentHeadMetadata,
    pub previous_head_header: CurrentHeadHeader,
    pub best_remote_level: Option<i32>,
    pub baker_address: Option<String>,
    pub synchronization: SynchronizationState,
    pub endorsmenents: EndrosementsState,
    pub operations_statistics: OperationsStatisticsState,
    pub baking: BakingState,
    pub delta_toggle: bool,
    pub ui: UiState,
}

impl State {
    /// The state at start: nothing known yet, relative values shown, the
    /// endorsement screen open.
    pub fn new(baker_address: Option<String>) -> (res: State)
        ensures
            res.baker_address == baker_address,
            res.delta_toggle,
            res.last_applied_level == 0,
            res.best_remote_level is None,
            res.current_head_header.level == 0,
            res.previous_head_header.level == 0,
            res.current_head_header.timestamp.valid(),
            res.previous_head_header.timestamp.valid(),
            res.network_constants == (NetworkConstants { minimal_block_delay: 0, preserved_cycles: 0 }),
            res.ui.active_page == ActivePage::Endorsements,
            res.ui.active_widget == ActiveWidget::EndorserTable,
            res.endorsmenents.endorsement_rights@.len() == 0,
            res.baking.baking_rights.rights@ == Map::<int, Option<crate::timing::Timestamp>>::empty(),
    {
        State {
            network_constants: NetworkConstants::default(),
            last_applied_level: 0,
            current_head_header: CurrentHeadHeader::default(),
            current_head_metadata: CurrentHeadMetadata::default(),
            previous_head_header: CurrentHeadHeader::default(),
            best_remote_level: None,
            baker_address,
            synchronization: SynchronizationState::default(),
            endorsmenents: EndrosementsState::default(),
            operations_statistics: OperationsStatisticsState::default(),
            baking: BakingState::default(),
            delta_toggle: true,
            ui: UiState::default(),
        }
    }
}

/// The selection of a list of `total` rows after moving down (or up).
pub open spec fn moved_selection(ts: TableState, total: int, down: bool) -> TableState {
    let sel = opt_index(ts.selected);
    let i = if down { next_index(total, sel) } else { previous_index(total, sel) };
    TableState { selected: Some(i as usize), offset: ts.offset }
}

/// `new` is `old` after moving the selection of the focused widget down (or
/// up).
pub open spec fn moved_vertically(old: State, down: bool, new: State) -> bool {
    match old.ui.active_widget {
        ActiveWidget::PeriodInfo => new == old,
        ActiveWidget::PeerTable => new == (State {
            synchronization: SynchronizationState {
                peer_table_state: moved_selection(
                    old.synchronization.peer_table_state,
                    old.synchronization.peer_metrics@.len() as int,
                    down,
                ),
                ..old.synchronization
            },
            ..old
        }),
        ActiveWidget::EndorserTable => {
            let t = old.endorsmenents.endorsement_table;
            new == (State {
                endorsmenents: EndrosementsState {
                    endorsement_table: crate::extensions::extended_table::ExtendedTable {
                        table_state: moved_selection(t.table_state, t.content@.len() as int, down),
                        ..t
                    },
                    ..old.endorsmenents
                },
                ..old
            })
        },
        ActiveWidget::StatisticsMainTable => {
            &&& new == (State { operations_statistics: new.operations_statistics, ..old })
            &&& after_main_selection(old.operations_statistics, down, new.operations_statistics)
        },
        ActiveWidget::StatisticsDetailsTable => {
            let t = old.operations_statistics.details_operation_statistics_table;
            new == (State {
                operations_statistics: OperationsStatisticsState {
                    details_operation_statistics_table: crate::extensions::extended_table::ExtendedTable {
                        table_state: moved_selection(t.table_state, t.content@.len() as int, down),
                        ..t
                    },
                    ..old.operations_statistics
                },
                ..old
            })
        },
        ActiveWidget::BakingTable => {
            let t = old.baking.baking_table;
            new == (State {
                baking: BakingState {
                    baking_table: crate::extensions::extended_table::ExtendedTable {
                        table_state: moved_selection(t.table_state, t.content@.len() as int, down),
                        ..t
                    },
                    ..old.baking
                },
                ..old
            })
        },
    }
}

/// `new` is `old` after moving the column selection of the focused table to
/// the right (or left).
pub open spec fn moved_sideways(old: State, right: bool, new: State) -> bool {
    match old.ui.active_widget {
        ActiveWidget::EndorserTable => {
            let t = old.endorsmenents.endorsement_table;
            new == (State {
                endorsmenents: EndrosementsState {
                    endorsement_table: if right { t.after_next() } else { t.after_previous() },
                    ..old.endorsmenents
                },
                ..old
            })
        },
        ActiveWidget::StatisticsMainTable => {
            let t = old.operations_statistics.main_operation_statistics_table;
            new == (State {
                operations_statistics: OperationsStatisticsState {
                    main_operation_statistics_table: if right { t.after_next() } else { t.after_previous() },
                    ..old.operations_statistics
                },
                ..old
            })
        },
        ActiveWidget::StatisticsDetailsTable => {
            let t = old.operations_statistics.details_operation_statistics_table;
            new == (State {
                operations_statistics: OperationsStatisticsState {
                    details_operation_statistics_table: if right { t.after_next() } else { t.after_previous() },
                    ..old.operations_statistics
                },
                ..old
            })
        },
        ActiveWidget::BakingTable => {
            let t = old.baking.baking_table;
            new == (State {
                baking: BakingState { baking_table: if right { t.after_next() } else { t.after_previous() }, ..old.baking },
                ..old
            })
        },
        _ => new == old,
    }
}

/// The focused table can move its column selection to the right (or left).
pub open spec fn can_move_sideways(old: State, right: bool) -> bool {
    match old.ui.active_widget {
        ActiveWidget::EndorserTable => {
            let t = old.endorsmenents.endorsement_table;
            if right { t.can_move_right() } else { t.can_move_left() }
        },
        ActiveWidget::StatisticsMainTable => {
            let t = old.operations_statistics.main_operation_statistics_table;
            if right { t.can_move_right() } else { t.can_move_left() }
        },
        ActiveWidget::StatisticsDetailsTable => {
            let t = old.operations_statistics.details_operation_statistics_table;
            if right { t.can_move_right() } else { t.can_move_left() }
        },
        ActiveWidget::BakingTable => {
            let t = old.baking.baking_table;
            if right { t.can_move_right() } else { t.can_move_left() }
        },
        _ => true,
    }
}

/// `new` is `old` after sorting the focused table by its selected column in
/// the opposite order; the details table is sorted only when it has rows.
pub open spec fn sorted_by_selection(old: State, new: State) -> bool {
    let dt = old.delta_toggle;
    match old.ui.active_widget {
        ActiveWidget::EndorserTable => {
            &&& new == (State {
                endorsmenents: EndrosementsState {
                    endorsement_table: new.endorsmenents.endorsement_table,
                    ..old.endorsmenents
                },
                ..old
            })
            &&& old.endorsmenents.endorsement_table.sort_toggled(&new.endorsmenents.endorsement_table, dt)
        },
        ActiveWidget::StatisticsMainTable => {
            &&& new == (State {
                operations_statistics: OperationsStatisticsState {
                    main_operation_statistics_table: new.operations_statistics.main_operation_statistics_table,
                    ..old.operations_statistics
                },
                ..old
            })
            &&& old.operations_statistics.main_operation_statistics_table.sort_toggled(
                &new.operations_statistics.main_operation_statistics_table,
                dt,
            )
        },
        ActiveWidget::StatisticsDetailsTable => {
            if old.operations_statistics.details_operation_statistics_table.content@.len() > 0 {
                &&& new == (State {
                    operations_statistics: OperationsStatisticsState {
                        details_operation_statistics_table: new.operations_statistics.details_operation_statistics_table,
                        ..old.operations_statistics
                    },
                    ..old
                })
                &&& old.operations_statistics.details_operation_statistics_table.sort_toggled(
                    &new.operations_statistics.details_operation_statistics_table,
                    dt,
                )
            } else {
                new == old
            }
        },
        ActiveWidget::BakingTable => {
            &&& new == (State { baking: BakingState { baking_table: new.baking.baking_table, ..old.baking }, ..old })
            &&& old.baking.baking_table.sort_toggled(&new.baking.baking_table, dt)
        },
        _ => new == old,
    }
}

/// `new` is `old` after drawing: the tables of the active screen mark the
/// column they are sorted by.
pub open spec fn drawn(old: State, new: State) -> bool {
    match old.ui.active_page {
        ActivePage::Endorsements => {
            &&& new == (State {
                endorsmenents: EndrosementsState {
                    endorsement_table: new.endorsmenents.endorsement_table,
                    ..old.endorsmenents
                },
                ..old
            })
            &&& old.endorsmenents.endorsement_table.highlighted(&new.endorsmenents.endorsement_table)
        },
        ActivePage::Statistics => {
            &&& new == (State {
                operations_statistics: OperationsStatisticsState {
                    main_operation_statistics_table: new.operations_statistics.main_operation_statistics_table,
                    details_operation_statistics_table: new.operations_statistics.details_operation_statistics_table,
                    ..old.operations_statistics
                },
                ..old
            })
            &&& old.operations_statistics.main_operation_statistics_table.highlighted(
                &new.operations_statistics.main_operation_statistics_table,
            )
            &&& old.operations_statistics.details_operation_statistics_table.highlighted(
                &new.operations_statistics.details_operation_statistics_table,
            )
        },
        ActivePage::Baking => {
            &&& new == (State { baking: BakingState { baking_table: new.baking.baking_table, ..old.baking }, ..old })
            &&& old.baking.baking_table.highlighted(&new.baking.baking_table)
        },
        ActivePage::Synchronization => new == old,
    }
}

/// The width that the baking table gets of the screen: three fifths.
pub open spec fn baking_width(width: u16) -> u16 {
    ((width * 60) / 100) as u16
}

/// The tables of the active screen can be laid out on a screen `width`
/// columns wide.
pub open spec fn layout_possible(old: State, width: u16) -> bool {
    match old.ui.active_page {
        ActivePage::Endorsements => old.endorsmenents.endorsement_table.layout_fits(width),
        ActivePage::Statistics => old.operations_statistics.main_operation_statistics_table.layout_fits(width / 2),
        ActivePage::Baking => width * 60 <= u16::MAX && old.baking.baking_table.layout_fits(baking_width(width)),
        ActivePage::Synchronization => true,
    }
}

/// `new` is `old` after the screen was drawn `width` columns wide: each table
/// of the active screen renders as many columns as fit into its share.
pub open spec fn laid_out(old: State, width: u16, new: State) -> bool {
    let ui = UiState { screen_width: width, ..old.ui };
    match old.ui.active_page {
        ActivePage::Endorsements => {
            let t = old.endorsmenents.endorsement_table;
            new == (State {
                ui,
                endorsmenents: EndrosementsState {
                    endorsement_table: crate::extensions::extended_table::ExtendedTable {
                        rendered: t.renderable(width).len() as usize,
                        ..t
                    },
                    ..old.endorsmenents
                },
                ..old
            })
        },
        ActivePage::Statistics => {
            let m = old.operations_statistics.main_operation_statistics_table;
            let d = old.operations_statistics.details_operation_statistics_table;
            let r = m.renderable(width / 2).len() as usize;
            new == (State {
                ui,
                operations_statistics: OperationsStatisticsState {
                    main_operation_statistics_table: crate::extensions::extended_table::ExtendedTable { rendered: r, ..m },
                    details_operation_statistics_table: crate::extensions::extended_table::ExtendedTable { rendered: r, ..d },
                    ..old.operations_statistics
                },
                ..old
            })
        },
        ActivePage::Baking => {
            let t = old.baking.baking_table;
            new == (State {
                ui,
                baking: BakingState {
                    baking_table: crate::extensions::extended_table::ExtendedTable {
                        rendered: t.renderable(baking_width(width)).len() as usize,
                        ..t
                    },
                    ..old.baking
                },
                ..old
            })
        },
        ActivePage::Synchronization => new == (State { ui, ..old }),
    }
}

/// `new` is `old` after the node moved to the head `header`: where the
/// baker had the right to bake or endorse the level of the head before, its
/// summaries are recorded; the head before becomes the previous head.
pub open spec fn head_moved(old: State, header: CurrentHeadHeader, new: State) -> bool {
    let current = old.current_head_header;
    &&& after_baking_head_changed(old.baking, current.level, current.hash, old.previous_head_header.timestamp, new.baking)
    &&& after_head_changed(
        old.endorsmenents,
        current.level,
        current.timestamp,
        current.hash@,
        old.baking.application_statistics@,
        new.endorsmenents,
    )
    &&& new == (State {
        baking: new.baking,
        endorsmenents: new.endorsmenents,
        previous_head_header: current,
        current_head_header: header,
        ..old
    })
}

/// The action can be taken in the state without a step that the interface
/// cannot compute (a time before the one it follows, a width beyond 16 bits,
/// a row that does not exist).
pub open spec fn reducible(old: State, action: Action) -> bool {
    match action {
        Action::EndorsementsStatusesReceived(x) => statuses_reducible(old.endorsmenents, x.endorsements_statuses@),
        Action::CurrentHeadHeaderChanged(_) => {
            let current = old.current_head_header;
            &&& old.baking.baking_rights.rights@.contains_key(current.level as int) ==> {
                &&& old.previous_head_header.timestamp.valid()
                &&& old.baking.application_statistics@.contains_key(current.hash@)
                    ==> old.baking.application_statistics@[current.hash@].spans_ok()
            }
            &&& old.endorsmenents.endorsement_rights_with_time.rights@.contains_key(current.level as int) ==> {
                &&& current.timestamp.valid()
                &&& endorsement_summary_fits(
                    old.endorsmenents.injected_endorsement_stats@,
                    old.baking.application_statistics@,
                    current.level as int,
                    current.hash@,
                )
            }
        },
        Action::OperationsStatisticsReceived(x) => forall|i: int|
            0 <= i < x.operations_statistics@.len() ==> (#[trigger] x.operations_statistics@[i]).1.deltas_fit(),
        Action::DrawScreenSuccess(x) => layout_possible(old, x.screen_width),
        Action::TuiRightKeyPushed(_) => can_move_sideways(old, true),
        Action::TuiLeftKeyPushed(_) => can_move_sideways(old, false),
        Action::TuiUpKeyPushedAction(_) => old.ui.active_widget == ActiveWidget::StatisticsMainTable
            ==> main_selection_fits(old.operations_statistics, false),
        Action::TuiDownKeyPushedAction(_) => old.ui.active_widget == ActiveWidget::StatisticsMainTable
            ==> main_selection_fits(old.operations_statistics, true),
        _ => true,
    }
}

/// `new` is `old` after the action, as the reducers of the screens, the
/// synchronization, the endorsements, the baking and the statistics take it
/// in turn.
pub open spec fn reduced(old: State, action: Action, new: State) -> bool {
    match action {
        Action::WebsocketMessageReceived(x) => {
            &&& new == (State { synchronization: new.synchronization, ..old })
            &&& after_messages(old.synchronization, x.websocket_message@, new.synchronization)
        },
        Action::EndorsementsRightsReceived(x) => new == (State {
            endorsmenents: EndrosementsState { endorsement_rights: x.endorsement_rights, ..old.endorsmenents },
            ..old
        }),
        Action::EndorsementsStatusesReceived(x) => {
            &&& new == (State { endorsmenents: new.endorsmenents, ..old })
            &&& after_statuses(old.endorsmenents, x.endorsements_statuses@, old.delta_toggle, new.endorsmenents)
        },
        Action::EndorsementsRightsWithTimeReceived(x) => {
            &&& new == (State {
                endorsmenents: EndrosementsState {
                    endorsement_rights_with_time: new.endorsmenents.endorsement_rights_with_time,
                    ..old.endorsmenents
                },
                ..old
            })
            &&& new.endorsmenents.endorsement_rights_with_time.rights@ == with_endorsing_rights(Map::empty(), x.rights@)
        },
        Action::MempoolEndorsementStatsReceived(x) => {
            &&& new == (State { endorsmenents: new.endorsmenents, ..old })
            &&& after_mempool_stats(old.endorsmenents, x.stats@, old.current_head_header.level, new.endorsmenents)
        },
        Action::CurrentHeadHeaderChanged(x) => head_moved(old, x.current_head_header, new),
        Action::CycleChanged(x) => {
            &&& new == (State {
                baking: BakingState { baking_rights: new.baking.baking_rights, ..old.baking },
                ..old
            })
            &&& new.baking.baking_rights.rights@ == old.baking.baking_rights.rights@.restrict(
                old.baking.baking_rights.rights@.dom().filter(|k: int| k >= x.at_level),
            )
        },
        Action::NetworkConstantsReceived(x) => new == (State { network_constants: x.constants, ..old }),
        Action::CurrentHeadMetadataChanged(x) => new == (State { current_head_metadata: x.new_metadata, ..old }),
        Action::OperationsStatisticsReceived(x) => {
            &&& new == (State { operations_statistics: new.operations_statistics, ..old })
            &&& after_statistics(old.operations_statistics, x.operations_statistics@, old.delta_toggle, new.operations_statistics)
        },
        Action::ApplicationStatisticsReceived(x) => {
            &&& new == (State { baking: new.baking, ..old })
            &&& after_application_statistics(old.baking, x.application_statistics@, new.baking)
        },
        Action::PerPeerBlockStatisticsReceived(x) => {
            &&& new == (State { baking: new.baking, ..old })
            &&& after_per_peer_statistics(old.baking, x.per_peer_block_statistics@, old.delta_toggle, new.baking)
        },
        Action::BakingRightsReceived(x) => {
            &&& new == (State {
                baking: BakingState { baking_rights: new.baking.baking_rights, ..old.baking },
                ..old
            })
            &&& new.baking.baking_rights.rights@ == with_baking_rights(old.baking.baking_rights.rights@, x.rights@)
        },
        Action::ChangeScreen(x) => new == (State {
            ui: UiState { active_page: x.screen, active_widget: first_widget(x.screen), ..old.ui },
            ..old
        }),
        Action::DrawScreen(_) => drawn(old, new),
        Action::DrawScreenSuccess(x) => laid_out(old, x.screen_width, new),
        Action::TuiRightKeyPushed(_) => moved_sideways(old, true, new),
        Action::TuiLeftKeyPushed(_) => moved_sideways(old, false, new),
        Action::TuiUpKeyPushedAction(_) => moved_vertically(old, false, new),
        Action::TuiDownKeyPushedAction(_) => moved_vertically(old, true, new),
        Action::TuiSortKeyPushed(_) => sorted_by_selection(old, new),
        Action::TuiDeltaToggleKeyPushed(_) => new == (State { delta_toggle: !old.delta_toggle, ..old }),
        Action::TuiWidgetSelectionKeyPushed(_) => new == (State {
            ui: UiState { active_widget: rotated_widget(old.ui.active_page, old.ui.active_widget), ..old.ui },
            ..old
        }),
        _ => new == old,
    }
}

/// The reducers' part of a new head: the baking and endorsement summaries
/// of the head before, then the move of the heads.
pub fn head_changed(state: &mut State, header: CurrentHeadHeader)
    requires
        reducible(*old(state), Action::CurrentHeadHeaderChanged(CurrentHeadHeaderChangedAction { current_head_header: header })),
    ensures
        head_moved(*old(state), header, *final(state)),
{
    let level = state.current_head_header.level;
    let hash = state.current_head_header.hash.clone();
    let previous_timestamp = state.previous_head_header.timestamp;
    state.baking.head_changed(level, &hash, previous_timestamp);
    let mut current = header;
    std::mem::swap(&mut current, &mut state.current_head_header);
    state.previous_head_header = current;
    let endorsing_level = state.previous_head_header.level;
    let endorsing_timestamp = state.previous_head_header.timestamp;
    state.endorsmenents.head_changed(
        endorsing_level,
        endorsing_timestamp,
        state.previous_head_header.hash.as_str(),
        &state.baking.application_statistics,
    );
}

/// The reducers' part of drawing: the tables of the active screen mark the
/// column they are sorted by.
pub fn draw_screen(state: &mut State)
    ensures
        drawn(*old(state), *final(state)),
{
    match state.ui.active_page {
        ActivePage::Endorsements => {
            state.endorsmenents.endorsement_table.highlight_sorting();
        },
        ActivePage::Statistics => {
            state.operations_statistics.main_operation_statistics_table.highlight_sorting();
            state.operations_statistics.details_operation_statistics_table.highlight_sorting();
        },
        ActivePage::Baking => {
            state.baking.baking_table.highlight_sorting();
        },
        ActivePage::Synchronization => {},
    }
}

/// The reducers' part of a drawn screen: the width is kept and the tables of
/// the active screen render as many columns as fit.
pub fn draw_screen_success(state: &mut State, screen_width: u16)
    requires
        layout_possible(*old(state), screen_width),
    ensures
        laid_out(*old(state), screen_width, *final(state)),
{
    state.ui.screen_width = screen_width;
    match state.ui.active_page {
        ActivePage::Endorsements => {
            let renderable = state.endorsmenents.endorsement_table.renderable_constraints(screen_width).len();
            state.endorsmenents.endorsement_table.set_rendered(renderable);
        },
        ActivePage::Statistics => {
            let renderable = state.operations_statistics.main_operation_statistics_table.renderable_constraints(
                screen_width / 2,
            ).len();
            state.operations_statistics.main_operation_statistics_table.set_rendered(renderable);
            state.operations_statistics.details_operation_statistics_table.set_rendered(renderable);
        },
        ActivePage::Baking => {
            let width = crate::baking::calculate_percentage(screen_width, 60);
            let renderable = state.baking.baking_table.renderable_constraints(width).len();
            state.baking.baking_table.set_rendered(renderable);
        },
        ActivePage::Synchronization => {},
    }
}

/// The reducers' part of an arrow key to the right (or left): the focused
/// table moves its column selection.
pub fn move_sideways(state: &mut State, right: bool)
    requires
        can_move_sideways(*old(state), right),
    ensures
        moved_sideways(*old(state), right, *final(state)),
{
    match state.ui.active_widget {
        ActiveWidget::EndorserTable => {
            if right {
                state.endorsmenents.endorsement_table.next();
            } else {
                state.endorsmenents.endorsement_table.previous();
            }
        },
        ActiveWidget::StatisticsMainTable => {
            if right {
                state.operations_statistics.main_operation_statistics_table.next();
            } else {
                state.operations_statistics.main_operation_statistics_table.previous();
            }
        },
        ActiveWidget::StatisticsDetailsTable => {
            if right {
                state.operations_statistics.details_operation_statistics_table.next();
            } else {
                state.operations_statistics.details_operation_statistics_table.previous();
            }
        },
        ActiveWidget::BakingTable => {
            if right {
                state.baking.baking_table.next();
            } else {
                state.baking.baking_table.previous();
            }
        },
        _ => {},
    }
}

/// The selection after moving down (or up) in a list of `total` rows.
fn moved(total: usize, selection: Option<usize>, down: bool) -> (res: Option<usize>)
    ensures
        res == Some((if down { next_index(total as int, opt_index(selection)) } else { previous_index(total as int, opt_index(selection)) }) as usize),
{
    if down {
        next_item(total, selection)
    } else {
        previous_item(total, selection)
    }
}

/// The reducers' part of an arrow key down (or up): the focused widget moves
/// its row selection; in the main statistics table the selected operation's
/// node reports are shown.
pub fn move_vertically(state: &mut State, down: bool)
    requires
        old(state).ui.active_widget == ActiveWidget::StatisticsMainTable
            ==> main_selection_fits(old(state).operations_statistics, down),
    ensures
        moved_vertically(*old(state), down, *final(state)),
{
    match state.ui.active_widget {
        ActiveWidget::PeriodInfo => {},
        ActiveWidget::PeerTable => {
            let total = state.synchronization.peer_metrics.len();
            let selection = moved(total, state.synchronization.peer_table_state.selected(), down);
            state.synchronization.peer_table_state.select(selection);
        },
        ActiveWidget::EndorserTable => {
            let total = state.endorsmenents.endorsement_table.content.len();
            let selection = moved(total, state.endorsmenents.endorsement_table.table_state.selected(), down);
            state.endorsmenents.endorsement_table.table_state.select(selection);
        },
        ActiveWidget::StatisticsMainTable => {
            state.operations_statistics.move_main_selection(down);
        },
        ActiveWidget::StatisticsDetailsTable => {
            let total = state.operations_statistics.details_operation_statistics_table.content.len();
            let selection = moved(
                total,
                state.operations_statistics.details_operation_statistics_table.table_state.selected(),
                down,
            );
            state.operations_statistics.details_operation_statistics_table.table_state.select(selection);
        },
        ActiveWidget::BakingTable => {
            let total = state.baking.baking_table.content.len();
            let selection = moved(total, state.baking.baking_table.table_state.selected(), down);
            state.baking.baking_table.table_state.select(selection);
        },
    }
}

/// The reducers' part of the sort key: the focused table is sorted by its
/// selected column in the opposite order.
pub fn sort_by_selection(state: &mut State)
    ensures
        sorted_by_selection(*old(state), *final(state)),
{
    let delta_toggle = state.delta_toggle;
    match state.ui.active_widget {
        ActiveWidget::EndorserTable => {
            state.endorsmenents.endorsement_table.toggle_sort(delta_toggle);
        },
        ActiveWidget::StatisticsMainTable => {
            state.operations_statistics.main_operation_statistics_table.toggle_sort(delta_toggle);
        },
        ActiveWidget::StatisticsDetailsTable => {
            if state.operations_statistics.details_operation_statistics_table.content.len() > 0 {
                state.operations_statistics.details_operation_statistics_table.toggle_sort(delta_toggle);
            }
        },
        ActiveWidget::BakingTable => {
            state.baking.baking_table.toggle_sort(delta_toggle);
        },
        _ => {},
    }
}

/// Takes an action: the reducers of the screens, the synchronization, the
/// endorsements, the baking and the statistics in turn.
pub fn reducer(state: &mut State, action: Action)
    requires
        reducible(*old(state), action),
    ensures
        reduced(*old(state), action, *final(state)),
{
    let delta_toggle = state.delta_toggle;
    match action {
        Action::WebsocketMessageReceived(x) => {
            state.synchronization.messages_received(x.websocket_message);
        },
        Action::EndorsementsRightsReceived(x) => {
            state.endorsmenents.endorsement_rights = x.endorsement_rights;
        },
        Action::EndorsementsStatusesReceived(x) => {
            state.endorsmenents.statuses_received(&x.endorsements_statuses, delta_toggle);
        },
        Action::EndorsementsRightsWithTimeReceived(x) => {
            state.endorsmenents.endorsement_rights_with_time = EndorsementRightsWithTime::new(&x.rights);
        },
        Action::MempoolEndorsementStatsReceived(x) => {
            let level = state.current_head_header.level;
            state.endorsmenents.mempool_stats_received(x.stats, level);
        },
        Action::CurrentHeadHeaderChanged(x) => {
            head_changed(state, x.current_head_header);
        },
        Action::CycleChanged(x) => {
            state.baking.baking_rights.cleanup(&x.at_level);
        },
        Action::NetworkConstantsReceived(x) => {
            state.network_constants = x.constants;
        },
        Action::CurrentHeadMetadataChanged(x) => {
            state.current_head_metadata = x.new_metadata;
        },
        Action::OperationsStatisticsReceived(x) => {
            state.operations_statistics.statistics_received(x.operations_statistics, delta_toggle);
        },
        Action::ApplicationStatisticsReceived(x) => {
            state.baking.application_statistics_received(x.application_statistics);
        },
        Action::PerPeerBlockStatisticsReceived(x) => {
            state.baking.per_peer_statistics_received(x.per_peer_block_statistics, delta_toggle);
        },
        Action::BakingRightsReceived(x) => {
            state.baking.baking_rights.add(&x.rights);
        },
        Action::ChangeScreen(x) => {
            state.ui.active_page = x.screen;
            state.ui.active_widget = first_widget_of(x.screen);
        },
        Action::DrawScreen(_) => {
            draw_screen(state);
        },
        Action::DrawScreenSuccess(x) => {
            draw_screen_success(state, x.screen_width);
        },
        Action::TuiRightKeyPushed(_) => {
            move_sideways(state, true);
        },
        Action::TuiLeftKeyPushed(_) => {
            move_sideways(state, false);
        },
        Action::TuiUpKeyPushedAction(_) => {
            move_vertically(state, false);
        },
        Action::TuiDownKeyPushedAction(_) => {
            move_vertically(state, true);
        },
        Action::TuiSortKeyPushed(_) => {
            sort_by_selection(state);
        },
        Action::TuiDeltaToggleKeyPushed(_) => {
            state.delta_toggle = !state.delta_toggle;
        },
        Action::TuiWidgetSelectionKeyPushed(_) => {
            state.ui.active_widget = rotate_widget(state.ui.active_page, state.ui.active_widget);
        },
        _ => {},
    }
}

/// What the automaton does after an action was reduced: dispatch another
/// action, send a call to the node, draw a screen, or read the websocket.
#[derive(Debug, Clone)]
pub enum Effect {
    Dispatch(Action),
    SendRpc(RpcCall),
    Draw(ActivePage),
    ReadWebsocket,
}

/// The levels of a cycle.
pub open spec fn blocks_per_cycle() -> int {
    4096
}

/// `e` dispatches a call of `target` with the query `query`.
pub open spec fn is_rpc_request(e: Effect, target: RpcTarget, query: Option<Seq<char>>) -> bool {
    match e {
        Effect::Dispatch(Action::RpcRequest(r)) => {
            &&& r.call.target == target
            &&& match r.call.query_arg {
                Some(q) => query == Some(q@),
                None => query is None,
            }
        },
        _ => false,
    }
}

/// The effects can be computed: the cycles asked for stay within `i32`.
pub open spec fn effects_computable(state: State, action: Action) -> bool {
    match action {
        Action::CycleChanged(x) => state.baker_address is Some
            ==> i32::MIN <= x.new_cycle + state.network_constants.preserved_cycles <= i32::MAX,
        Action::CurrentHeadMetadataChanged(x) => state.baking.baking_rights.rights@.dom().len() == 0
            ==> i32::MIN <= x.new_metadata.level_info.cycle + state.network_constants.preserved_cycles <= i32::MAX,
        _ => true,
    }
}

/// `out` is what the automaton does after `action`, in order, where `state`
/// is the state after the action was reduced.
pub open spec fn is_effects(state: State, action: Action, out: Seq<Effect>) -> bool {
    match action {
        Action::DrawScreen(_) => out == seq![Effect::Draw(state.ui.active_page)],
        Action::CurrentHeadHeaderReceived(x) => {
            let h = x.current_head_header;
            if state.current_head_header.level < h.level {
                &&& out.len() == 1
                &&& out[0] matches Effect::Dispatch(Action::CurrentHeadHeaderChanged(c))
                    && same_header(c.current_head_header, h)
            } else if div_trunc(h.level as int, blocks_per_cycle()) > div_trunc(
                state.current_head_header.level as int,
                blocks_per_cycle(),
            ) {
                out == seq![Effect::Dispatch(Action::CycleChanged(CycleChangedAction {
                    new_cycle: div_trunc(h.level as int, blocks_per_cycle()) as i32,
                    at_level: h.level,
                }))]
            } else {
                out.len() == 0
            }
        },
        Action::CurrentHeadHeaderGet(_) => out.len() == 1 && is_rpc_request(out[0], RpcTarget::CurrentHeadHeader, None),
        Action::NetworkConstantsGet(_) => out.len() == 1 && is_rpc_request(out[0], RpcTarget::NetworkConstants, None),
        Action::RpcRequest(x) => out == seq![Effect::SendRpc(x.call)],
        Action::EndorsementsStatusesGet(_) => out.len() == 1 && is_rpc_request(out[0], RpcTarget::EndersementsStatus, None),
        Action::CurrentHeadHeaderChanged(x) => {
            let h = x.current_head_header;
            let ask_rights = is_rpc_request(
                out[0],
                RpcTarget::EndorsementRights,
                Some(level_block_query_text(h.level as int, h.hash@)),
            );
            if state.endorsmenents.endorsement_rights_with_time.rights@.dom().len() == 0 {
                &&& out.len() == 2
                &&& ask_rights
                &&& out[1] == Effect::Dispatch(Action::EndorsementsRightsWithTimeGet(EndorsementsRightsWithTimeGetAction {}))
            } else {
                out.len() == 1 && ask_rights
            }
        },
        Action::EndorsementsRightsWithTimeGet(_) => match state.baker_address {
            Some(d) => out.len() == 1 && is_rpc_request(
                out[0],
                RpcTarget::EndorsementRightsWithTime,
                Some(delegate_cycle_query_text(d@, div_trunc(state.current_head_header.level as int, blocks_per_cycle()))),
            ),
            None => out.len() == 0,
        },
        Action::ApplicationStatisticsGet(x) => out.len() == 1 && is_rpc_request(
            out[0],
            RpcTarget::ApplicationStatistics,
            Some(level_query_text(x.level as int)),
        ),
        Action::PerPeerBlockStatisticsGet(x) => out.len() == 1 && is_rpc_request(
            out[0],
            RpcTarget::PerPeerBlockStatistics,
            Some(level_query_text(x.level as int)),
        ),
        Action::CycleChanged(x) => match state.baker_address {
            Some(_) => out == seq![Effect::Dispatch(Action::BakingRightsGet(BakingRightsGetAction {
                cycle: (x.new_cycle + state.network_constants.preserved_cycles) as i32,
            }))],
            None => out.len() == 0,
        },
        Action::BakingRightsGet(x) => match state.baker_address {
            Some(d) => out.len() == 1 && is_rpc_request(
                out[0],
                RpcTarget::BakingRights,
                Some(baking_rights_query_text(d@, x.cycle as int)),
            ),
            None => out.len() == 0,
        },
        Action::CurrentHeadMetadataChanged(x) => {
            let c = x.new_metadata.level_info.cycle as int;
            let p = state.network_constants.preserved_cycles as int;
            if state.baking.baking_rights.rights@.dom().len() == 0 && p >= 0 {
                out == Seq::new((p + 1) as nat, |i: int| Effect::Dispatch(Action::BakingRightsGet(BakingRightsGetAction {
                    cycle: (c + i) as i32,
                })))
            } else {
                out.len() == 0
            }
        },
        Action::OperationsStatisticsGet(_) => out.len() == 1 && is_rpc_request(out[0], RpcTarget::OperationsStats, None),
        Action::WebsocketRead(_) => out == seq![Effect::ReadWebsocket],
        _ => out.len() == 0,
    }
}

/// A request of `target` with no query.
fn rpc_request(target: RpcTarget) -> (res: Effect)
    ensures
        is_rpc_request(res, target, None),
{
    Effect::Dispatch(Action::RpcRequest(RpcRequestAction { call: RpcCall::new(target, None) }))
}

/// A request of `target` with the query `query`.
fn rpc_request_with(target: RpcTarget, query: String) -> (res: Effect)
    ensures
        is_rpc_request(res, target, Some(query@)),
{
    Effect::Dispatch(Action::RpcRequest(RpcRequestAction { call: RpcCall::new(target, Some(query)) }))
}

/// What the automaton does after `action` was reduced into `state`: the
/// effects of the screens, the RPC, the endorsements, the baking, the
/// statistics and the websocket in turn.
pub fn effects(state: &State, action: &Action) -> (res: Vec<Effect>)
    requires
        effects_computable(*state, *action),
    ensures
        is_effects(*state, *action, res@),
{
    let mut out: Vec<Effect> = Vec::new();
    match action {
        Action::DrawScreen(_) => {
            out.push(Effect::Draw(state.ui.active_page));
        },
        Action::CurrentHeadHeaderReceived(x) => {
            let h = &x.current_head_header;
            if state.current_head_header.level < h.level {
                out.push(Effect::Dispatch(Action::CurrentHeadHeaderChanged(CurrentHeadHeaderChangedAction {
                    current_head_header: h.clone(),
                })));
            } else {
                let new_cycle = h.level / 4096;
                let old_cycle = state.current_head_header.level / 4096;
                if new_cycle > old_cycle {
                    out.push(Effect::Dispatch(Action::CycleChanged(CycleChangedAction { new_cycle, at_level: h.level })));
                }
            }
        },
        Action::CurrentHeadHeaderGet(_) => {
            out.push(rpc_request(RpcTarget::CurrentHeadHeader));
        },
        Action::NetworkConstantsGet(_) => {
            out.push(rpc_request(RpcTarget::NetworkConstants));
        },
        Action::RpcRequest(x) => {
            out.push(Effect::SendRpc(x.call.clone()));
        },
        Action::EndorsementsStatusesGet(_) => {
            out.push(rpc_request(RpcTarget::EndersementsStatus));
        },
        Action::CurrentHeadHeaderChanged(x) => {
            let h = &x.current_head_header;
            out.push(rpc_request_with(RpcTarget::EndorsementRights, level_block_query(h.level, h.hash.as_str())));
            if state.endorsmenents.endorsement_rights_with_time.rights.is_empty() {
                out.push(Effect::Dispatch(Action::EndorsementsRightsWithTimeGet(EndorsementsRightsWithTimeGetAction {})));
            }
        },
        Action::EndorsementsRightsWithTimeGet(_) => {
            let cycle = state.current_head_header.level / 4096;
            match &state.baker_address {
                Some(delegate) => {
                    out.push(rpc_request_with(RpcTarget::EndorsementRightsWithTime, delegate_cycle_query(delegate.as_str(), cycle)));
                },
                None => {},
            }
        },
        Action::ApplicationStatisticsGet(x) => {
            out.push(rpc_request_with(RpcTarget::ApplicationStatistics, level_query(x.level)));
        },
        Action::PerPeerBlockStatisticsGet(x) => {
            out.push(rpc_request_with(RpcTarget::PerPeerBlockStatistics, level_query(x.level)));
        },
        Action::CycleChanged(x) => {
            if state.baker_address.is_some() {
                let cycle = x.new_cycle + state.network_constants.preserved_cycles;
                out.push(Effect::Dispatch(Action::BakingRightsGet(BakingRightsGetAction { cycle })));
            }
        },
        Action::BakingRightsGet(x) => {
            match &state.baker_address {
                Some(delegate) => {
                    out.push(rpc_request_with(RpcTarget::BakingRights, baking_rights_query(delegate.as_str(), x.cycle)));
                },
                None => {},
            }
        },
        Action::CurrentHeadMetadataChanged(x) => {
            let preserved_cycles = state.network_constants.preserved_cycles;
            if state.baking.baking_rights.rights.is_empty() && preserved_cycles >= 0 {
                let current_cycle = x.new_metadata.level_info.cycle;
                let last = current_cycle + preserved_cycles;
                let mut cycle = current_cycle;
                loop
                    invariant_except_break
                        current_cycle <= cycle <= last,
                        out@ == Seq::new((cycle - current_cycle) as nat, |i: int| Effect::Dispatch(Action::BakingRightsGet(BakingRightsGetAction {
                            cycle: (current_cycle + i) as i32,
                        }))),
                    invariant
                        last == current_cycle + preserved_cycles,
                    ensures
                        out@ == Seq::new((last + 1 - current_cycle) as nat, |i: int| Effect::Dispatch(Action::BakingRightsGet(BakingRightsGetAction {
                            cycle: (current_cycle + i) as i32,
                        }))),
                    decreases last - cycle,
                {
                    out.push(Effect::Dispatch(Action::BakingRightsGet(BakingRightsGetAction { cycle })));
                    assert(out@ =~= Seq::new((cycle + 1 - current_cycle) as nat, |i: int| Effect::Dispatch(Action::BakingRightsGet(BakingRightsGetAction {
                        cycle: (current_cycle + i) as i32,
                    }))));
                    if cycle == last {
                        break;
                    }
                    cycle = cycle + 1;
                }
            }
        },
        Action::OperationsStatisticsGet(_) => {
            out.push(rpc_request(RpcTarget::OperationsStats));
        },
        Action::WebsocketRead(_) => {
            out.push(Effect::ReadWebsocket);
        },
        _ => {},
    }
    out
}

/// The actions of a tick of the clock: read the websocket and ask the node
/// for its state, the application statistics and peer reports of the head
/// at `level`, and the endorsements.
pub open spec fn tick_actions(level: i32) -> Seq<Action> {
    seq![
        Action::WebsocketRead(WebsocketReadAction {}),
        Action::BestRemoteLevelGet(BestRemoteLevelGetAction {}),
        Action::CurrentHeadHeaderGet(CurrentHeadHeaderGetAction {}),
        Action::CurrentHeadMetadataGet(CurrentHeadMetadataGetAction {}),
        Action::EndorsementsStatusesGet(EndorsementsStatusesGetAction {}),
        Action::ApplicationStatisticsGet(ApplicationStatisticsGetAction { level }),
        Action::PerPeerBlockStatisticsGet(PerPeerBlockStatisticsGetAction { level }),
        Action::MempoolEndorsementStatsGet(MempoolEndorsementStatsGetAction {}),
    ]
}

/// The actions that open screen `p`; the statistics are asked for before
/// their screen opens.
pub open spec fn open_screen_actions(p: ActivePage) -> Seq<Action> {
    if p == ActivePage::Statistics {
        seq![
            Action::OperationsStatisticsGet(OperationsStatisticsGetAction {}),
            Action::ChangeScreen(ChangeScreenAction { screen: p }),
        ]
    } else {
        seq![Action::ChangeScreen(ChangeScreenAction { screen: p })]
    }
}

/// The actions of a terminal event, and whether the interface quits; the
/// head is at `level`.
pub open spec fn event_reaction(event: TuiEvent, level: i32) -> (Seq<Action>, bool) {
    match event {
        TuiEvent::Tick => (tick_actions(level), false),
        TuiEvent::Input(key, modifier) => match key {
            Key::F(n) => if n == 10 {
                (seq![Action::Shutdown(ShutdownAction {})], true)
            } else {
                match page_of_function_key(n) {
                    Some(p) => (open_screen_actions(p), false),
                    None => (Seq::empty(), false),
                }
            },
            Key::Char(c) => if c == 's' {
                (seq![Action::TuiSortKeyPushed(TuiSortKeyPushedAction { modifier })], false)
            } else if c == 'd' {
                (seq![Action::TuiDeltaToggleKeyPushed(TuiDeltaToggleKeyPushedAction {})], false)
            } else {
                (Seq::empty(), false)
            },
            Key::Tab => (seq![Action::TuiWidgetSelectionKeyPushed(TuiWidgetSelectionKeyPushedAction {})], false),
            Key::Right => (seq![Action::TuiRightKeyPushed(TuiRightKeyPushedAction {})], false),
            Key::Left => (seq![Action::TuiLeftKeyPushed(TuiLeftKeyPushedAction {})], false),
            Key::Down => (seq![Action::TuiDownKeyPushedAction(TuiDownKeyPushedAction {})], false),
            Key::Up => (seq![Action::TuiUpKeyPushedAction(TuiUpKeyPushedAction {})], false),
            Key::Other => (Seq::empty(), false),
        },
        _ => (Seq::empty(), false),
    }
}

/// The actions to dispatch for a terminal event, in order, and whether the
/// interface quits after them; the head is at `level`.
pub fn event_actions(event: TuiEvent, level: i32) -> (res: (Vec<Action>, bool))
    ensures
        (res.0@, res.1) == event_reaction(event, level),
{
    let mut out: Vec<Action> = Vec::new();
    let mut quit = false;
    match event {
        TuiEvent::Tick => {
            out.push(Action::WebsocketRead(WebsocketReadAction {}));
            out.push(Action::BestRemoteLevelGet(BestRemoteLevelGetAction {}));
            out.push(Action::CurrentHeadHeaderGet(CurrentHeadHeaderGetAction {}));
            out.push(Action::CurrentHeadMetadataGet(CurrentHeadMetadataGetAction {}));
            out.push(Action::EndorsementsStatusesGet(EndorsementsStatusesGetAction {}));
            out.push(Action::ApplicationStatisticsGet(ApplicationStatisticsGetAction { level }));
            out.push(Action::PerPeerBlockStatisticsGet(PerPeerBlockStatisticsGetAction { level }));
            out.push(Action::MempoolEndorsementStatsGet(MempoolEndorsementStatsGetAction {}));
            assert(out@ =~= tick_actions(level));
        },
        TuiEvent::Input(key, modifier) => match key {
            Key::F(n) => {
                if n == 10 {
                    out.push(Action::Shutdown(ShutdownAction {}));
                    quit = true;
                    assert(out@ =~= seq![Action::Shutdown(ShutdownAction {})]);
                } else {
                    match ActivePage::from_function_key(n) {
                        Some(p) => {
                            if p == ActivePage::Statistics {
                                out.push(Action::OperationsStatisticsGet(OperationsStatisticsGetAction {}));
                            }
                            out.push(Action::ChangeScreen(ChangeScreenAction { screen: p }));
                            assert(out@ =~= open_screen_actions(p));
                        },
                        None => {},
                    }
                }
            },
            Key::Char(c) => {
                if c == 's' {
                    out.push(Action::TuiSortKeyPushed(TuiSortKeyPushedAction { modifier }));
                    assert(out@ =~= seq![Action::TuiSortKeyPushed(TuiSortKeyPushedAction { modifier })]);
                } else if c == 'd' {
                    out.push(Action::TuiDeltaToggleKeyPushed(TuiDeltaToggleKeyPushedAction {}));
                    assert(out@ =~= seq![Action::TuiDeltaToggleKeyPushed(TuiDeltaToggleKeyPushedAction {})]);
                }
            },
            Key::Tab => {
                out.push(Action::TuiWidgetSelectionKeyPushed(TuiWidgetSelectionKeyPushedAction {}));
                assert(out@ =~= seq![Action::TuiWidgetSelectionKeyPushed(TuiWidgetSelectionKeyPushedAction {})]);
            },
            Key::Right => {
                out.push(Action::TuiRightKeyPushed(TuiRightKeyPushedAction {}));
                assert(out@ =~= seq![Action::TuiRightKeyPushed(TuiRightKeyPushedAction {})]);
            },
            Key::Left => {
                out.push(Action::TuiLeftKeyPushed(TuiLeftKeyPushedAction {}));
                assert(out@ =~= seq![Action::TuiLeftKeyPushed(TuiLeftKeyPushedAction {})]);
            },
            Key::Down => {
                out.push(Action::TuiDownKeyPushedAction(TuiDownKeyPushedAction {}));
                assert(out@ =~= seq![Action::TuiDownKeyPushedAction(TuiDownKeyPushedAction {})]);
            },
            Key::Up => {
                out.push(Action::TuiUpKeyPushedAction(TuiUpKeyPushedAction {}));
                assert(out@ =~= seq![Action::TuiUpKeyPushedAction(TuiUpKeyPushedAction {})]);
            },
            Key::Other => {},
        },
        _ => {},
    }
    (out, quit)
}

/// The action that carries an answer of the node.
pub open spec fn response_action_of(response: RpcResponse) -> Action {
    match response {
        RpcResponse::EndorsementRights(r) => Action::EndorsementsRightsReceived(EndorsementsRightsReceivedAction { endorsement_rights: r }),
        RpcResponse::EndorsementsStatus(s) => Action::EndorsementsStatusesReceived(EndorsementsStatusesReceivedAction { endorsements_statuses: s }),
        RpcResponse::CurrentHeadHeader(h) => Action::CurrentHeadHeaderReceived(CurrentHeadHeaderRecievedAction { current_head_header: h }),
        RpcResponse::OperationsStats(s) => Action::OperationsStatisticsReceived(OperationsStatisticsReceivedAction { operations_statistics: s }),
        RpcResponse::ApplicationStatistics(s) => Action::ApplicationStatisticsReceived(ApplicationStatisticsReceivedAction { application_statistics: s }),
        RpcResponse::PerPeerBlockStatistics(s) => Action::PerPeerBlockStatisticsReceived(PerPeerBlockStatisticsReceivedAction { per_peer_block_statistics: s }),
        RpcResponse::BakingRights(r) => Action::BakingRightsReceived(BakingRightsReceivedAction { rights: r }),
        RpcResponse::EndorsementRightsWithTime(r) => Action::EndorsementsRightsWithTimeReceived(EndorsementsRightsWithTimeReceivedAction { rights: r }),
        RpcResponse::MempoolEndorsementStats(s) => Action::MempoolEndorsementStatsReceived(MempoolEndorsementStatsReceivedAction { stats: s }),
        RpcResponse::NetworkConstants(c) => Action::NetworkConstantsReceived(NetworkConstantsReceivedAction { constants: c }),
        RpcResponse::CurrentHeadMetadata(m) => Action::CurrentHeadMetadataReceived(CurrentHeadMetadataReceivedAction { metadata: m }),
        RpcResponse::BestRemoteLevel(l) => Action::BestRemoteLevelReceived(BestRemoteLevelReceivedAction { level: l }),
    }
}

/// The action to dispatch for an answer of the node.
pub fn response_action(response: RpcResponse) -> (res: Action)
    ensures
        res == response_action_of(response),
{
    match response {
        RpcResponse::EndorsementRights(r) => Action::EndorsementsRightsReceived(EndorsementsRightsReceivedAction { endorsement_rights: r }),
        RpcResponse::EndorsementsStatus(s) => Action::EndorsementsStatusesReceived(EndorsementsStatusesReceivedAction { endorsements_statuses: s }),
        RpcResponse::CurrentHeadHeader(h) => Action::CurrentHeadHeaderReceived(CurrentHeadHeaderRecievedAction { current_head_header: h }),
        RpcResponse::OperationsStats(s) => Action::OperationsStatisticsReceived(OperationsStatisticsReceivedAction { operations_statistics: s }),
        RpcResponse::ApplicationStatistics(s) => Action::ApplicationStatisticsReceived(ApplicationStatisticsReceivedAction { application_statistics: s }),
        RpcResponse::PerPeerBlockStatistics(s) => Action::PerPeerBlockStatisticsReceived(PerPeerBlockStatisticsReceivedAction { per_peer_block_statistics: s }),
        RpcResponse::BakingRights(r) => Action::BakingRightsReceived(BakingRightsReceivedAction { rights: r }),
        RpcResponse::EndorsementRightsWithTime(r) => Action::EndorsementsRightsWithTimeReceived(EndorsementsRightsWithTimeReceivedAction { rights: r }),
        RpcResponse::MempoolEndorsementStats(s) => Action::MempoolEndorsementStatsReceived(MempoolEndorsementStatsReceivedAction { stats: s }),
        RpcResponse::NetworkConstants(c) => Action::NetworkConstantsReceived(NetworkConstantsReceivedAction { constants: c }),
        RpcResponse::CurrentHeadMetadata(m) => Action::CurrentHeadMetadataReceived(CurrentHeadMetadataReceivedAction { metadata: m }),
        RpcResponse::BestRemoteLevel(l) => Action::BestRemoteLevelReceived(BestRemoteLevelReceivedAction { level: l }),
    }
}

/// Whether the focused table can move its column selection.
fn check_move_sideways(state: &State, right: bool) -> (res: bool)
    ensures
        res == can_move_sideways(*state, right),
{
    match state.ui.active_widget {
        ActiveWidget::EndorserTable => {
            let t = &state.endorsmenents.endorsement_table;
            if right { t.check_move_right() } else { t.check_move_left() }
        },
        ActiveWidget::StatisticsMainTable => {
            let t = &state.operations_statistics.main_operation_statistics_table;
            if right { t.check_move_right() } else { t.check_move_left() }
        },
        ActiveWidget::StatisticsDetailsTable => {
            let t = &state.operations_statistics.details_operation_statistics_table;
            if right { t.check_move_right() } else { t.check_move_left() }
        },
        ActiveWidget::BakingTable => {
            let t = &state.baking.baking_table;
            if right { t.check_move_right() } else { t.check_move_left() }
        },
        _ => true,
    }
}

/// Whether the tables of the active screen can be laid out.
fn check_layout_possible(state: &State, width: u16) -> (res: bool)
    ensures
        res == layout_possible(*state, width),
{
    match state.ui.active_page {
        ActivePage::Endorsements => state.endorsmenents.endorsement_table.check_layout(width),
        ActivePage::Statistics => state.operations_statistics.main_operation_statistics_table.check_layout(width / 2),
        ActivePage::Baking => {
            if (width as u32) * 60 > 65535 {
                false
            } else {
                let w = (width * 60) / 100;
                state.baking.baking_table.check_layout(w)
            }
        },
        ActivePage::Synchronization => true,
    }
}

/// Whether the row selected after the move is a row of the main table.
fn check_main_selection(ops: &OperationsStatisticsState, down: bool) -> (res: bool)
    ensures
        res == main_selection_fits(*ops, down),
{
    let t = &ops.main_operation_statistics_table;
    let total = t.content.len();
    match moved(total, t.table_state.selected(), down) {
        Some(i) => i < total,
        None => false,
    }
}

/// Whether the action can be taken in the state: `reducer` may be called
/// exactly when this holds.
pub fn check_reducible(state: &State, action: &Action) -> (res: bool)
    ensures
        res == reducible(*state, *action),
{
    match action {
        Action::EndorsementsStatusesReceived(x) => crate::endorsements::check_statuses(&state.endorsmenents, &x.endorsements_statuses),
        Action::CurrentHeadHeaderChanged(_) => {
            let current = &state.current_head_header;
            let baking_ok = if state.baking.baking_rights.rights.get(current.level).is_some() {
                let spans = match state.baking.application_statistics.get(current.hash.as_str()) {
                    Some(st) => st.check_spans(),
                    None => true,
                };
                state.previous_head_header.timestamp.is_valid() && spans
            } else {
                true
            };
            let endorsing_ok = if state.endorsmenents.endorsement_rights_with_time.rights.get(current.level).is_some() {
                current.timestamp.is_valid() && crate::endorsements::check_endorsement_summary(
                    &state.endorsmenents.injected_endorsement_stats,
                    &state.baking.application_statistics,
                    current.level,
                    current.hash.as_str(),
                )
            } else {
                true
            };
            baking_ok && endorsing_ok
        },
        Action::OperationsStatisticsReceived(x) => crate::operations::all_deltas_fit(&x.operations_statistics),
        Action::DrawScreenSuccess(x) => check_layout_possible(state, x.screen_width),
        Action::TuiRightKeyPushed(_) => check_move_sideways(state, true),
        Action::TuiLeftKeyPushed(_) => check_move_sideways(state, false),
        Action::TuiUpKeyPushedAction(_) => state.ui.active_widget != ActiveWidget::StatisticsMainTable
            || check_main_selection(&state.operations_statistics, false),
        Action::TuiDownKeyPushedAction(_) => state.ui.active_widget != ActiveWidget::StatisticsMainTable
            || check_main_selection(&state.operations_statistics, true),
        _ => true,
    }
}

/// Whether the effects of the action can be computed: `effects` may be
/// called exactly when this holds.
pub fn check_effects_computable(state: &State, action: &Action) -> (res: bool)
    ensures
        res == effects_computable(*state, *action),
{
    match action {
        Action::CycleChanged(x) => {
            state.baker_address.is_none() || {
                let sum = (x.new_cycle as i64) + (state.network_constants.preserved_cycles as i64);
                i32::MIN as i64 <= sum && sum <= i32::MAX as i64
            }
        },
        Action::CurrentHeadMetadataChanged(x) => {
            !state.baking.baking_rights.rights.is_empty() || {
                let sum = (x.new_metadata.level_info.cycle as i64) + (state.network_constants.preserved_cycles as i64);
                i32::MIN as i64 <= sum && sum <= i32::MAX as i64
            }
        },
        _ => true,
    }
}

/// The keys of the key list, whatever modifier is held and wherever the
/// head is: each dispatches one action, which the reducer always takes, and
/// none quits. `d` flips between relative and absolute times and changes
/// nothing else, `s` sorts the focused table by its selected column, Tab
/// focuses the next widget of the screen, and the arrows move the selection
/// in their direction.
pub proof fn lemma_keys_of_the_key_list(s: State, modifier: u8, level: i32, new: State)
    ensures
        ({
            let (a, quit) = event_reaction(TuiEvent::Input(Key::Char('d'), modifier), level);
            &&& !quit && a.len() == 1 && reducible(s, a[0])
            &&& reduced(s, a[0], new) <==> new == (State { delta_toggle: !s.delta_toggle, ..s })
        }),
        ({
            let (a, quit) = event_reaction(TuiEvent::Input(Key::Char('s'), modifier), level);
            &&& !quit && a.len() == 1 && reducible(s, a[0])
            &&& reduced(s, a[0], new) <==> sorted_by_selection(s, new)
        }),
        ({
            let (a, quit) = event_reaction(TuiEvent::Input(Key::Tab, modifier), level);
            &&& !quit && a.len() == 1 && reducible(s, a[0])
            &&& reduced(s, a[0], new) <==> new == (State {
                ui: UiState { active_widget: rotated_widget(s.ui.active_page, s.ui.active_widget), ..s.ui },
                ..s
            })
        }),
        ({
            let (a, quit) = event_reaction(TuiEvent::Input(Key::Right, modifier), level);
            &&& !quit && a.len() == 1
            &&& reduced(s, a[0], new) <==> moved_sideways(s, true, new)
        }),
        ({
            let (a, quit) = event_reaction(TuiEvent::Input(Key::Left, modifier), level);
            &&& !quit && a.len() == 1
            &&& reduced(s, a[0], new) <==> moved_sideways(s, false, new)
        }),
        ({
            let (a, quit) = event_reaction(TuiEvent::Input(Key::Down, modifier), level);
            &&& !quit && a.len() == 1
            &&& reduced(s, a[0], new) <==> moved_vertically(s, true, new)
        }),
        ({
            let (a, quit) = event_reaction(TuiEvent::Input(Key::Up, modifier), level);
            &&& !quit && a.len() == 1
            &&& reduced(s, a[0], new) <==> moved_vertically(s, false, new)
        }),
{
}

/// Toggling between absolute and relative times twice gives back the state.
pub proof fn lemma_delta_toggle_twice(s0: State, s1: State, s2: State)
    requires
        reduced(s0, Action::TuiDeltaToggleKeyPushed(TuiDeltaToggleKeyPushedAction {}), s1),
        reduced(s1, Action::TuiDeltaToggleKeyPushed(TuiDeltaToggleKeyPushedAction {}), s2),
    ensures
        s2 == s0,
        s1.delta_toggle != s0.delta_toggle,
{
}

/// A tick of the clock only asks: none of its actions changes the state, so
/// the level its requests name is the level of the head throughout.
pub proof fn lemma_tick_changes_nothing(s: State, level: i32, k: int, new: State)
    requires
        0 <= k < tick_actions(level).len(),
        reduced(s, tick_actions(level)[k], new),
    ensures
        new == s,
        reducible(s, tick_actions(level)[k]),
{
}

/// Each tick of the clock reads the websocket and asks the node for its
/// head, for the endorsement statuses, and for the application statistics
/// and the peers' reports of the block at the head's level `level`.
pub proof fn lemma_tick_asks_the_node(s: State, level: i32)
    ensures
        tick_actions(level).contains(Action::WebsocketRead(WebsocketReadAction {})),
        forall|out: Seq<Effect>| #[trigger] is_effects(s, Action::WebsocketRead(WebsocketReadAction {}), out)
            ==> out == seq![Effect::ReadWebsocket],
        tick_actions(level).contains(Action::CurrentHeadHeaderGet(CurrentHeadHeaderGetAction {})),
        forall|out: Seq<Effect>| #[trigger] is_effects(s, Action::CurrentHeadHeaderGet(CurrentHeadHeaderGetAction {}), out)
            ==> out.len() == 1 && is_rpc_request(out[0], RpcTarget::CurrentHeadHeader, None),
        tick_actions(level).contains(Action::EndorsementsStatusesGet(EndorsementsStatusesGetAction {})),
        forall|out: Seq<Effect>| #[trigger] is_effects(s, Action::EndorsementsStatusesGet(EndorsementsStatusesGetAction {}), out)
            ==> out.len() == 1 && is_rpc_request(out[0], RpcTarget::EndersementsStatus, None),
        tick_actions(level).contains(Action::ApplicationStatisticsGet(ApplicationStatisticsGetAction { level })),
        forall|out: Seq<Effect>| #[trigger] is_effects(s, Action::ApplicationStatisticsGet(ApplicationStatisticsGetAction { level }), out)
            ==> out.len() == 1 && is_rpc_request(out[0], RpcTarget::ApplicationStatistics, Some(level_query_text(level as int))),
        tick_actions(level).contains(Action::PerPeerBlockStatisticsGet(PerPeerBlockStatisticsGetAction { level })),
        forall|out: Seq<Effect>| #[trigger] is_effects(s, Action::PerPeerBlockStatisticsGet(PerPeerBlockStatisticsGetAction { level }), out)
            ==> out.len() == 1 && is_rpc_request(out[0], RpcTarget::PerPeerBlockStatistics, Some(level_query_text(level as int))),
{
    let t = tick_actions(level);
    assert(t[0] == Action::WebsocketRead(WebsocketReadAction {}));
    assert(t[2] == Action::CurrentHeadHeaderGet(CurrentHeadHeaderGetAction {}));
    assert(t[4] == Action::EndorsementsStatusesGet(EndorsementsStatusesGetAction {}));
    assert(t[5] == Action::ApplicationStatisticsGet(ApplicationStatisticsGetAction { level }));
    assert(t[6] == Action::PerPeerBlockStatisticsGet(PerPeerBlockStatisticsGetAction { level }));
}

/// The function key `F<n>` of a screen opens it, with the screen's first
/// widget focused; `F10` quits.
pub proof fn lemma_function_keys(p: ActivePage, modifier: u8, level: i32, s: State, new: State)
    requires
        reduced(s, Action::ChangeScreen(ChangeScreenAction { screen: p }), new),
    ensures
        ({
            let (actions, quit) = event_reaction(TuiEvent::Input(Key::F((crate::terminal_ui::page_index(p) + 1) as u8), modifier), level);
            &&& !quit
            &&& actions.last() == Action::ChangeScreen(ChangeScreenAction { screen: p })
        }),
        new.ui.active_page == p,
        new.ui.active_widget == first_widget(p),
        event_reaction(TuiEvent::Input(Key::F(10), modifier), level) == (seq![Action::Shutdown(ShutdownAction {})], true),
{
    crate::terminal_ui::lemma_hotkey_opens_page(p);
}

/// The selection of the focused list lies within the list, whose length is
/// that of a list in memory; the main statistics table, whose moves also
/// load the details, is left out.
pub open spec fn focused_selection_in_list(s: State) -> bool {
    let in_list = |ts: TableState, total: int| ts.selected matches Some(i) && i < total && total <= usize::MAX;
    match s.ui.active_widget {
        ActiveWidget::PeriodInfo => true,
        ActiveWidget::PeerTable => in_list(s.synchronization.peer_table_state, s.synchronization.peer_metrics@.len() as int),
        ActiveWidget::EndorserTable => in_list(
            s.endorsmenents.endorsement_table.table_state,
            s.endorsmenents.endorsement_table.content@.len() as int,
        ),
        ActiveWidget::StatisticsMainTable => false,
        ActiveWidget::StatisticsDetailsTable => in_list(
            s.operations_statistics.details_operation_statistics_table.table_state,
            s.operations_statistics.details_operation_statistics_table.content@.len() as int,
        ),
        ActiveWidget::BakingTable => in_list(s.baking.baking_table.table_state, s.baking.baking_table.content@.len() as int),
    }
}

/// Moving down and then up in the focused list gives back the state, when a
/// row of the list is selected.
pub proof fn lemma_down_then_up(s0: State, s1: State, s2: State)
    requires
        focused_selection_in_list(s0),
        reduced(s0, Action::TuiDownKeyPushedAction(TuiDownKeyPushedAction {}), s1),
        reduced(s1, Action::TuiUpKeyPushedAction(TuiUpKeyPushedAction {}), s2),
    ensures
        s2 == s0,
{
    match s0.ui.active_widget {
        ActiveWidget::PeriodInfo => {},
        ActiveWidget::PeerTable => {
            let ts = s0.synchronization.peer_table_state;
            lemma_moved_back(ts, s0.synchronization.peer_metrics@.len() as int);
        },
        ActiveWidget::EndorserTable => {
            let t = s0.endorsmenents.endorsement_table;
            lemma_moved_back(t.table_state, t.content@.len() as int);
        },
        ActiveWidget::StatisticsMainTable => {},
        ActiveWidget::StatisticsDetailsTable => {
            let t = s0.operations_statistics.details_operation_statistics_table;
            lemma_moved_back(t.table_state, t.content@.len() as int);
        },
        ActiveWidget::BakingTable => {
            let t = s0.baking.baking_table;
            lemma_moved_back(t.table_state, t.content@.len() as int);
        },
    }
}

/// A selection within a list moved down and then up is the selection before.
proof fn lemma_moved_back(ts: TableState, total: int)
    requires
        ts.selected matches Some(i) && i < total,
        total <= usize::MAX,
    ensures
        moved_selection(moved_selection(ts, total, true), total, false) == ts,
{
    let i = ts.selected->0 as int;
    crate::terminal_ui::lemma_next_previous_inverse(total, i);
}

/// The node's head is taken only when it is higher than the head shown; a
/// head that is not higher changes nothing.
pub proof fn lemma_head_only_advances(s: State, x: CurrentHeadHeaderRecievedAction, out: Seq<Effect>)
    requires
        is_effects(s, Action::CurrentHeadHeaderReceived(x), out),
    ensures
        (out.len() > 0 && out[0] is Dispatch && out[0]->Dispatch_0 is CurrentHeadHeaderChanged)
            <==> s.current_head_header.level < x.current_head_header.level,
        s.current_head_header.level >= x.current_head_header.level ==> out.len() == 0,
{
    if s.current_head_header.level >= x.current_head_header.level {
        let h = x.current_head_header.level as int;
        let c = s.current_head_header.level as int;
        assert(div_trunc(h, 4096) <= div_trunc(c, 4096)) by (nonlinear_arith)
            requires
                h <= c,
        {
            if h >= 0 {
                assert(h / 4096 <= c / 4096);
            } else if c >= 0 {
                assert(-((-h) / 4096) <= 0);
            } else {
                assert((-c) / 4096 <= (-h) / 4096);
            }
        }
    }
}

/// A request is handed to the node exactly as dispatched.
pub proof fn lemma_request_is_sent(s: State, x: RpcRequestAction, out: Seq<Effect>)
    requires
        is_effects(s, Action::RpcRequest(x), out),
    ensures
        out == seq![Effect::SendRpc(x.call)],
{
}

} // verus!
