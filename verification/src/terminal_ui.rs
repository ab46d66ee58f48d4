use vstd::prelude::*;

use crate::extensions::extended_table::TableState;
use crate::rpc::{CurrentHeadHeader, CurrentHeadMetadata, NetworkConstants};
use crate::text::digit_char;

verus! {

/// The screens of the interface.
#[derive(Debug, Clone, Copy, PartialEq, Eq, Structural)]
pub enum ActivePage {
    Endorsements,
    Baking,
    Synchronization,
    Statistics,
}

/// The position of a screen in the tab bar.
pub open spec fn page_index(p: ActivePage) -> int {
    match p {
        ActivePage::Endorsements => 0,
        ActivePage::Baking => 1,
        ActivePage::Statistics => 2,
        ActivePage::Synchronization => 3,
    }
}

/// The function key that opens a screen: `F1` to `F4` in the order of the
/// tab bar.
pub open spec fn page_hotkey(p: ActivePage) -> Seq<char> {
    match p {
        ActivePage::Endorsements => "F1"@,
        ActivePage::Baking => "F2"@,
        ActivePage::Statistics => "F3"@,
        ActivePage::Synchronization => "F4"@,
    }
}

/// The name of a screen.
pub open spec fn page_name(p: ActivePage) -> Seq<char> {
    match p {
        ActivePage::Endorsements => "Endorsements"@,
        ActivePage::Baking => "Baking"@,
        ActivePage::Synchronization => "Synchronization"@,
        ActivePage::Statistics => "Statistics"@,
    }
}

/// The screen opened by the function key `F<n>`: the key that the header
/// bar names for it (`hotkey`): `F1` the endorsements and `F2` the baking
/// screen, as the README's list of keys has them, `F3` the statistics and
/// `F4` the synchronization screen.
pub open spec fn page_of_function_key(n: u8) -> Option<ActivePage> {
    if n == 1 {
        Some(ActivePage::Endorsements)
    } else if n == 2 {
        Some(ActivePage::Baking)
    } else if n == 3 {
        Some(ActivePage::Statistics)
    } else if n == 4 {
        Some(ActivePage::Synchronization)
    } else {
        None
    }
}

/// Each screen is opened by the function key that the header bar names for
/// it, and that key is its position in the tab bar counted from one.
pub proof fn lemma_function_key_opens_its_screen(p: ActivePage)
    ensures
        page_of_function_key((page_index(p) + 1) as u8) == Some(p),
        page_hotkey(p) == seq!['F', digit_char(page_index(p) + 1)],
{
    reveal_strlit("F1");
    reveal_strlit("F2");
    reveal_strlit("F3");
    reveal_strlit("F4");
    assert(page_hotkey(p) =~= seq!['F', digit_char(page_index(p) + 1)]);
}

impl ActivePage {
    pub fn to_index(&self) -> (res: usize)
        ensures
            res as int == page_index(*self),
    {
        match self {
            ActivePage::Endorsements => 0,
            ActivePage::Baking => 1,
            ActivePage::Statistics => 2,
            ActivePage::Synchronization => 3,
        }
    }

    pub fn hotkey(&self) -> (res: String)
        ensures
            res@ == page_hotkey(*self),
    {
        match self {
            ActivePage::Endorsements => String::from_str("F1"),
            ActivePage::Baking => String::from_str("F2"),
            ActivePage::Statistics => String::from_str("F3"),
            ActivePage::Synchronization => String::from_str("F4"),
        }
    }

    pub fn to_string(&self) -> (res: String)
        ensures
            res@ == page_name(*self),
    {
        match self {
            ActivePage::Endorsements => String::from_str("Endorsements"),
            ActivePage::Baking => String::from_str("Baking"),
            ActivePage::Synchronization => String::from_str("Synchronization"),
            ActivePage::Statistics => String::from_str("Statistics"),
        }
    }

    pub fn default() -> (res: ActivePage)
        ensures
            res == ActivePage::Endorsements,
    {
        ActivePage::Endorsements
    }

    /// Every screen, in the order of declaration.
    pub fn all() -> (res: Vec<ActivePage>)
        ensures
            res@ == seq![ActivePage::Endorsements, ActivePage::Baking, ActivePage::Synchronization, ActivePage::Statistics],
    {
        vec![ActivePage::Endorsements, ActivePage::Baking, ActivePage::Synchronization, ActivePage::Statistics]
    }

    /// The screen opened by the function key `F<n>`: the key that the header
/// bar names for it (`hotkey`): `F1` the endorsements and `F2` the baking
/// screen, as the README's list of keys has them, `F3` the statistics and
/// `F4` the synchronization screen.
    pub fn from_function_key(n: u8) -> (res: Option<ActivePage>)
        ensures
            res == page_of_function_key(n),
    {
        if n == 1 {
            Some(ActivePage::Endorsements)
        } else if n == 2 {
            Some(ActivePage::Baking)
        } else if n == 3 {
            Some(ActivePage::Statistics)
        } else if n == 4 {
            Some(ActivePage::Synchronization)
        } else {
            None
        }
    }
}

/// The function key `F<n>` opens the screen whose hot key is `F<n>`, and each
/// screen is opened by its hot key.
pub proof fn lemma_hotkey_opens_page(p: ActivePage)
    ensures
        page_of_function_key((page_index(p) + 1) as u8) == Some(p),
        page_hotkey(p) == seq!['F'] + seq![crate::text::digit_char(page_index(p) + 1)],
{
    reveal_strlit("F1");
    reveal_strlit("F2");
    reveal_strlit("F3");
    reveal_strlit("F4");
    assert(page_hotkey(p) =~= seq!['F'] + seq![crate::text::digit_char(page_index(p) + 1)]);
}

/// Each screen has its own place in the tab bar, from 0 to 3.
pub proof fn lemma_page_index_distinct(p: ActivePage, q: ActivePage)
    ensures
        0 <= page_index(p) < 4,
        page_index(p) == page_index(q) ==> p == q,
{
}

/// The widget that the arrow keys move in.
#[derive(Debug, Clone, Copy, PartialEq, Eq, Structural)]
pub enum ActiveWidget {
    PeriodInfo,
    PeerTable,
    EndorserTable,
    StatisticsMainTable,
    StatisticsDetailsTable,
    BakingTable,
}

impl ActiveWidget {
    pub fn default() -> (res: ActiveWidget)
        ensures
            res == ActiveWidget::EndorserTable,
    {
        ActiveWidget::EndorserTable
    }
}

/// The widget that a screen starts with.
pub open spec fn first_widget(p: ActivePage) -> ActiveWidget {
    match p {
        ActivePage::Synchronization => ActiveWidget::PeriodInfo,
        ActivePage::Endorsements => ActiveWidget::EndorserTable,
        ActivePage::Statistics => ActiveWidget::StatisticsMainTable,
        ActivePage::Baking => ActiveWidget::BakingTable,
    }
}

/// The widget that the tab key moves to on screen `p`.
pub open spec fn rotated_widget(p: ActivePage, w: ActiveWidget) -> ActiveWidget {
    match p {
        ActivePage::Synchronization => match w {
            ActiveWidget::PeriodInfo => ActiveWidget::PeerTable,
            _ => ActiveWidget::PeriodInfo,
        },
        ActivePage::Endorsements => ActiveWidget::EndorserTable,
        ActivePage::Statistics => match w {
            ActiveWidget::StatisticsMainTable => ActiveWidget::StatisticsDetailsTable,
            ActiveWidget::StatisticsDetailsTable => ActiveWidget::StatisticsMainTable,
            _ => ActiveWidget::StatisticsMainTable,
        },
        ActivePage::Baking => ActiveWidget::BakingTable,
    }
}

/// The widget a screen starts with.
pub fn first_widget_of(p: ActivePage) -> (res: ActiveWidget)
    ensures
        res == first_widget(p),
{
    match p {
        ActivePage::Synchronization => ActiveWidget::PeriodInfo,
        ActivePage::Endorsements => ActiveWidget::EndorserTable,
        ActivePage::Statistics => ActiveWidget::StatisticsMainTable,
        ActivePage::Baking => ActiveWidget::BakingTable,
    }
}

/// The widget that the tab key moves to.
pub fn rotate_widget(p: ActivePage, w: ActiveWidget) -> (res: ActiveWidget)
    ensures
        res == rotated_widget(p, w),
{
    match p {
        ActivePage::Synchronization => match w {
            ActiveWidget::PeriodInfo => ActiveWidget::PeerTable,
            _ => ActiveWidget::PeriodInfo,
        },
        ActivePage::Endorsements => ActiveWidget::EndorserTable,
        ActivePage::Statistics => match w {
            ActiveWidget::StatisticsMainTable => ActiveWidget::StatisticsDetailsTable,
            ActiveWidget::StatisticsDetailsTable => ActiveWidget::StatisticsMainTable,
            _ => ActiveWidget::StatisticsMainTable,
        },
        ActivePage::Baking => ActiveWidget::BakingTable,
    }
}

/// The widget a screen starts with belongs to it, and the tab key keeps
/// the focus within the screen: two presses from a widget of the screen
/// come back to it, except on screens with a single widget, where it stays.
pub proof fn lemma_tab_cycles(p: ActivePage, w: ActiveWidget)
    requires
        w == first_widget(p) || w == rotated_widget(p, first_widget(p)),
    ensures
        rotated_widget(p, rotated_widget(p, w)) == w,
{
}

/// What the interface shows: the screen, the focused widget and the width
/// of the terminal.
#[derive(Debug, Clone, Copy, PartialEq, Eq, Structural)]
pub struct UiState {
    pub peer_table_state: TableState,
    pub active_page: ActivePage,
    pub active_widget: ActiveWidget,
    pub current_details_length: usize,
    pub screen_width: u16,
}

impl UiState {
    pub fn default() -> (res: UiState)
        ensures
            res == (UiState {
                peer_table_state: TableState { offset: 0, selected: None },
                active_page: ActivePage::Endorsements,
                active_widget: ActiveWidget::EndorserTable,
                current_details_length: 0,
                screen_width: 0,
            }),
    {
        UiState {
            peer_table_state: TableState::new(),
            active_page: ActivePage::default(),
            active_widget: ActiveWidget::default(),
            current_details_length: 0,
            screen_width: 0,
        }
    }
}

/// The row below `selection` in a list of `total` rows, wrapping to the top;
/// the first row when nothing is selected or the list is empty.
pub open spec fn next_index(total: int, selection: Option<int>) -> int {
    match selection {
        Some(i) => if total != 0 && i + 1 <= total - 1 { i + 1 } else { 0 },
        None => 0,
    }
}

/// The row above `selection` in a list of `total` rows, wrapping to the
/// bottom; the first row when nothing is selected or the list is empty.
pub open spec fn previous_index(total: int, selection: Option<int>) -> int {
    match selection {
        Some(i) => if total != 0 {
            if i > 0 { i - 1 } else { total - 1 }
        } else {
            0
        },
        None => 0,
    }
}

/// An optional row as an integer.
pub open spec fn opt_index(o: Option<usize>) -> Option<int> {
    match o {
        Some(i) => Some(i as int),
        None => None,
    }
}

/// The row selected after moving down.
pub fn next_item(total: usize, selection_index: Option<usize>) -> (res: Option<usize>)
    ensures
        res is Some,
        res.unwrap() as int == next_index(total as int, opt_index(selection_index)),
{
    match selection_index {
        Some(selection_index) => {
            if total != 0 {
                if selection_index >= total - 1 {
                    return Some(0);
                } else {
                    return Some(selection_index + 1);
                }
            }
            Some(0)
        },
        None => Some(0),
    }
}

/// The row selected after moving up.
pub fn previous_item(total: usize, selection_index: Option<usize>) -> (res: Option<usize>)
    ensures
        res is Some,
        res.unwrap() as int == previous_index(total as int, opt_index(selection_index)),
{
    match selection_index {
        Some(selection_index) => {
            if total != 0 {
                if selection_index > 0 {
                    return Some(selection_index - 1);
                } else {
                    return Some(total - 1);
                }
            }
            Some(0)
        },
        None => Some(0),
    }
}

/// Moving down and then up in a list returns to the row selected before, and
/// so does moving up and then down; both keep the selection within the list.
pub proof fn lemma_next_previous_inverse(total: int, i: int)
    requires
        0 <= i < total,
    ensures
        0 <= next_index(total, Some(i)) < total,
        0 <= previous_index(total, Some(i)) < total,
        previous_index(total, Some(next_index(total, Some(i)))) == i,
        next_index(total, Some(previous_index(total, Some(i)))) == i,
{
}

/// Moving down from the last row wraps to the first, and moving up from the
/// first row wraps to the last.
pub proof fn lemma_wrap_around(total: int)
    requires
        total > 0,
    ensures
        next_index(total, Some(total - 1)) == 0,
        previous_index(total, Some(0)) == total - 1,
{
}

/// A key of the keyboard as the interface tells them apart.
#[derive(Debug, Clone, Copy, PartialEq, Eq, Structural)]
pub enum Key {
    Char(char),
    F(u8),
    Tab,
    Right,
    Left,
    Down,
    Up,
    Other,
}

/// What the terminal reported: a key with its modifier bits, a resize, a
/// mouse event, or a tick of the clock.
#[derive(Debug, Clone, Copy, PartialEq, Eq, Structural)]
pub enum TuiEvent {
    Input(Key, u8),
    Resize,
    Mouse,
    Tick,
}

/// Draw the active screen.
#[derive(Debug, Clone)]
pub struct DrawScreenAction {}

/// The screen was drawn on a terminal `screen_width` columns wide.
#[derive(Debug, Clone)]
pub struct DrawScreenSuccessAction {
    pub screen_width: u16,
}

/// The screen could not be drawn.
#[derive(Debug, Clone)]
pub struct DrawScreenFailiureAction {
    pub error: String,
}

/// Show another screen.
#[derive(Debug, Clone)]
pub struct ChangeScreenAction {
    pub screen: ActivePage,
}

#[derive(Debug, Clone)]
pub struct TuiRightKeyPushedAction {}

#[derive(Debug, Clone)]
pub struct TuiLeftKeyPushedAction {}

#[derive(Debug, Clone)]
pub struct TuiUpKeyPushedAction {}

#[derive(Debug, Clone)]
pub struct TuiDownKeyPushedAction {}

/// Sort by the selected column; the modifier bits of the key come along.
#[derive(Debug, Clone)]
pub struct TuiSortKeyPushedAction {
    pub modifier: u8,
}

#[derive(Debug, Clone)]
pub struct TuiDeltaToggleKeyPushedAction {}

#[derive(Debug, Clone)]
pub struct TuiWidgetSelectionKeyPushedAction {}

#[derive(Debug, Clone)]
pub struct CurrentHeadHeaderGetAction {}

/// The node reported its head.
#[derive(Debug, Clone)]
pub struct CurrentHeadHeaderRecievedAction {
    pub current_head_header: CurrentHeadHeader,
}

/// The node moved to a higher head.
#[derive(Debug, Clone)]
pub struct CurrentHeadHeaderChangedAction {
    pub current_head_header: CurrentHeadHeader,
}

/// The head entered a new cycle at `at_level`.
#[derive(Debug, Clone)]
pub struct CycleChangedAction {
    pub new_cycle: i32,
    pub at_level: i32,
}

#[derive(Debug, Clone)]
pub struct NetworkConstantsGetAction {}

#[derive(Debug, Clone)]
pub struct NetworkConstantsReceivedAction {
    pub constants: NetworkConstants,
}

#[derive(Debug, Clone)]
pub struct CurrentHeadMetadataGetAction {}

#[derive(Debug, Clone)]
pub struct CurrentHeadMetadataReceivedAction {
    pub metadata: CurrentHeadMetadata,
}

#[derive(Debug, Clone)]
pub struct CurrentHeadMetadataChangedAction {
    pub new_metadata: CurrentHeadMetadata,
}

#[derive(Debug, Clone)]
pub struct BestRemoteLevelGetAction {}

#[derive(Debug, Clone)]
pub struct BestRemoteLevelReceivedAction {
    pub level: Option<i32>,
}

#[derive(Debug, Clone)]
pub struct BestRemoteLevelChangedAction {
    pub level: Option<i32>,
}

} // verus!
