use vstd::prelude::*;

use crate::extensions::extended_table::{texts, Constraint, ExtendedTable, TableState};
use crate::extensions::sorting::{opt_key, ordered_items, text_le, FocusKey, SortKey, SortKeyView};
use crate::extensions::{
    measured_from, measured_wide, missing_value, opt_u64, row_view, shown_time, styled_time, styled_time_cell, widen_u64, CellContent,
    CellStyle, CellText, Color, SortOrder, StyledTime, SummaryRow, summary_row, summary_view,
    TuiTableData,
};
use crate::text_map::{keys_ascending, TextMap};
use crate::baking::{span, span_ok, wide_u64, BlockApplicationStatistics};
use crate::level_map::{is_next_level, last_entries_win, lemma_last_entries_win_push, no_next_level, LevelMap};
use crate::operations::{earliest, is_earliest, lemma_earliest_is_least, opt_sub, strings_of, sub_fits, sub_fits_exec, NodeTimes, OperationStats};
use crate::text::{nat_to_decimal, str_eq, usize_to_string};
use crate::timing::{
    countdown_fits, is_next_right, max_unix_seconds, min_unix_seconds, next_right, next_right_at,
    Timestamp,
};

verus! {

/// How far an endorsement got, from not seen at all to received by the node.
#[derive(Debug, Clone, Copy, PartialEq, Eq, Structural)]
pub enum EndorsementState {
    Missing,
    Broadcast,
    Applied,
    Prechecked,
    Decoded,
    Received,
}

/// The position of a state in the order of the summary and of sorting.
pub open spec fn state_rank(s: EndorsementState) -> int {
    match s {
        EndorsementState::Missing => 0,
        EndorsementState::Broadcast => 1,
        EndorsementState::Applied => 2,
        EndorsementState::Prechecked => 3,
        EndorsementState::Decoded => 4,
        EndorsementState::Received => 5,
    }
}

/// The state with the given rank.
pub open spec fn state_of_rank(r: int) -> EndorsementState {
    if r == 0 {
        EndorsementState::Missing
    } else if r == 1 {
        EndorsementState::Broadcast
    } else if r == 2 {
        EndorsementState::Applied
    } else if r == 3 {
        EndorsementState::Prechecked
    } else if r == 4 {
        EndorsementState::Decoded
    } else {
        EndorsementState::Received
    }
}

/// The state that a node reports by its lower-case name.
pub open spec fn state_from_text(s: Seq<char>) -> Option<EndorsementState> {
    if s == "missing"@ {
        Some(EndorsementState::Missing)
    } else if s == "broadcast"@ {
        Some(EndorsementState::Broadcast)
    } else if s == "applied"@ {
        Some(EndorsementState::Applied)
    } else if s == "prechecked"@ {
        Some(EndorsementState::Prechecked)
    } else if s == "decoded"@ {
        Some(EndorsementState::Decoded)
    } else if s == "received"@ {
        Some(EndorsementState::Received)
    } else {
        None
    }
}

/// The name of a state as the table shows it.
pub open spec fn state_name(s: EndorsementState) -> Seq<char> {
    match s {
        EndorsementState::Missing => "Missing"@,
        EndorsementState::Broadcast => "Broadcast"@,
        EndorsementState::Applied => "Applied"@,
        EndorsementState::Prechecked => "Prechecked"@,
        EndorsementState::Decoded => "Decoded"@,
        EndorsementState::Received => "Received"@,
    }
}

/// The color of a state.
pub open spec fn state_color(s: EndorsementState) -> Color {
    match s {
        EndorsementState::Missing => Color::Red,
        EndorsementState::Broadcast => Color::Green,
        EndorsementState::Applied => Color::Cyan,
        EndorsementState::Prechecked => Color::Blue,
        EndorsementState::Decoded => Color::Magenta,
        EndorsementState::Received => Color::Yellow,
    }
}

/// The error of a name that is no state.
#[derive(Debug, Clone, Copy, PartialEq, Eq, Structural)]
pub struct InvalidVariantError {}

impl EndorsementState {
    /// The state named `s`.
    pub fn from_str(s: &str) -> (res: Result<EndorsementState, InvalidVariantError>)
        ensures
            match res {
                Ok(st) => state_from_text(s@) == Some(st),
                Err(_) => state_from_text(s@) is None,
            },
    {
        if str_eq(s, "missing") {
            Ok(EndorsementState::Missing)
        } else if str_eq(s, "broadcast") {
            Ok(EndorsementState::Broadcast)
        } else if str_eq(s, "applied") {
            Ok(EndorsementState::Applied)
        } else if str_eq(s, "prechecked") {
            Ok(EndorsementState::Prechecked)
        } else if str_eq(s, "decoded") {
            Ok(EndorsementState::Decoded)
        } else if str_eq(s, "received") {
            Ok(EndorsementState::Received)
        } else {
            Err(InvalidVariantError {})
        }
    }

    /// The state before anything was seen.
    pub fn default() -> (res: EndorsementState)
        ensures
            res == EndorsementState::Missing,
    {
        EndorsementState::Missing
    }

    /// The position of the state in sorting order.
    pub fn rank(&self) -> (r: u8)
        ensures
            r as int == state_rank(*self),
    {
        match self {
            EndorsementState::Missing => 0,
            EndorsementState::Broadcast => 1,
            EndorsementState::Applied => 2,
            EndorsementState::Prechecked => 3,
            EndorsementState::Decoded => 4,
            EndorsementState::Received => 5,
        }
    }

    pub fn to_string(&self) -> (res: String)
        ensures
            res@ == state_name(*self),
    {
        match self {
            EndorsementState::Missing => String::from_str("Missing"),
            EndorsementState::Broadcast => String::from_str("Broadcast"),
            EndorsementState::Applied => String::from_str("Applied"),
            EndorsementState::Prechecked => String::from_str("Prechecked"),
            EndorsementState::Decoded => String::from_str("Decoded"),
            EndorsementState::Received => String::from_str("Received"),
        }
    }

    fn color(&self) -> (res: Color)
        ensures
            res == state_color(*self),
    {
        match self {
            EndorsementState::Missing => Color::Red,
            EndorsementState::Broadcast => Color::Green,
            EndorsementState::Applied => Color::Cyan,
            EndorsementState::Prechecked => Color::Blue,
            EndorsementState::Decoded => Color::Magenta,
            EndorsementState::Received => Color::Yellow,
        }
    }

    /// The state's color as background.
    pub fn get_style(&self) -> (res: CellStyle)
        ensures
            res == CellStyle::on(state_color(*self)),
    {
        CellStyle { fg: None, bg: Some(self.color()), dim: false }
    }

    /// The state's color as foreground.
    pub fn get_style_fg(&self) -> (res: CellStyle)
        ensures
            res == CellStyle::colored(state_color(*self)),
    {
        CellStyle { fg: Some(self.color()), bg: None, dim: false }
    }
}

/// What a node reports of one endorsement, in nanoseconds.
#[derive(Debug, Clone)]
pub struct EndorsementStatus {
    pub decoded_time: Option<u64>,
    pub applied_time: Option<u64>,
    pub prechecked_time: Option<u64>,
    pub broadcast_time: Option<u64>,
    pub received_contents_time: Option<u64>,
    pub received_hash_time: Option<u64>,
    pub slot: u32,
    pub state: String,
    pub broadcast: bool,
}

/// A row of the endorsement table.
#[derive(Debug)]
pub struct EndorsementStatusSortable {
    pub delta: Option<u64>,
    pub decoded_time: Option<u64>,
    pub received_hash_time: Option<u64>,
    pub received_contents_time: Option<u64>,
    pub applied_time: Option<u64>,
    pub prechecked_time: Option<u64>,
    pub broadcast_time: Option<u64>,
    pub state: EndorsementState,
    pub received_contents_time_delta: Option<u64>,
    pub decoded_time_delta: Option<u64>,
    pub prechecked_time_delta: Option<u64>,
    pub applied_time_delta: Option<u64>,
    pub broadcast_time_delta: Option<u64>,
    pub baker: String,
    pub slot_count: usize,
}

/// `later - earlier` when both are known.
pub open spec fn udiff(later: Option<u64>, earlier: Option<u64>) -> Option<u64> {
    match later {
        Some(a) => match earlier {
            Some(b) => Some((a - b) as u64),
            None => None,
        },
        None => None,
    }
}

/// `later` does not come before `earlier`, where both are known.
pub open spec fn udiff_ok(later: Option<u64>, earlier: Option<u64>) -> bool {
    match later {
        Some(a) => match earlier {
            Some(b) => b <= a,
            None => true,
        },
        None => true,
    }
}

fn udiff_ok_exec(later: Option<u64>, earlier: Option<u64>) -> (res: bool)
    ensures
        res == udiff_ok(later, earlier),
{
    match later {
        Some(a) => match earlier {
            Some(b) => b <= a,
            None => true,
        },
        None => true,
    }
}

fn udiff_of(later: Option<u64>, earlier: Option<u64>) -> (res: Option<u64>)
    requires
        udiff_ok(later, earlier),
    ensures
        res == udiff(later, earlier),
{
    match later {
        Some(a) => match earlier {
            Some(b) => Some(a - b),
            None => None,
        },
        None => None,
    }
}

impl EndorsementStatus {
    /// The time from the last step before broadcasting (application, or
    /// else prechecking) to the broadcast.
    pub open spec fn broadcast_delta(&self) -> Option<u64> {
        if self.broadcast_time is Some && self.applied_time is Some {
            udiff(self.broadcast_time, self.applied_time)
        } else {
            udiff(self.broadcast_time, self.prechecked_time)
        }
    }

    /// No step is reported before the step it follows.
    pub open spec fn times_ordered(&self) -> bool {
        &&& udiff_ok(self.broadcast_time, self.received_hash_time)
        &&& udiff_ok(self.received_contents_time, self.received_hash_time)
        &&& udiff_ok(self.decoded_time, self.received_contents_time)
        &&& udiff_ok(self.prechecked_time, self.decoded_time)
        &&& udiff_ok(self.applied_time, self.decoded_time)
        &&& udiff_ok(self.broadcast_time, self.applied_time)
        &&& (self.applied_time is None ==> udiff_ok(self.broadcast_time, self.prechecked_time))
    }

    /// The row of `baker`, who has `slot_count` slots, for this status.
    pub open spec fn sortable_of(&self, baker: String, slot_count: usize) -> EndorsementStatusSortable {
        EndorsementStatusSortable {
            delta: udiff(self.broadcast_time, self.received_hash_time),
            decoded_time: self.decoded_time,
            received_hash_time: self.received_hash_time,
            received_contents_time: self.received_contents_time,
            applied_time: self.applied_time,
            prechecked_time: self.prechecked_time,
            broadcast_time: self.broadcast_time,
            state: match state_from_text(self.state@) {
                Some(s) => s,
                None => EndorsementState::Missing,
            },
            received_contents_time_delta: udiff(self.received_contents_time, self.received_hash_time),
            decoded_time_delta: udiff(self.decoded_time, self.received_contents_time),
            prechecked_time_delta: udiff(self.prechecked_time, self.decoded_time),
            applied_time_delta: udiff(self.applied_time, self.decoded_time),
            broadcast_time_delta: self.broadcast_delta(),
            baker,
            slot_count,
        }
    }

    /// Whether no step is reported before the step it follows.
    pub fn check_times(&self) -> (res: bool)
        ensures
            res == self.times_ordered(),
    {
        udiff_ok_exec(self.broadcast_time, self.received_hash_time)
            && udiff_ok_exec(self.received_contents_time, self.received_hash_time)
            && udiff_ok_exec(self.decoded_time, self.received_contents_time)
            && udiff_ok_exec(self.prechecked_time, self.decoded_time)
            && udiff_ok_exec(self.applied_time, self.decoded_time)
            && udiff_ok_exec(self.broadcast_time, self.applied_time)
            && (self.applied_time.is_some() || udiff_ok_exec(self.broadcast_time, self.prechecked_time))
    }

    /// The row of `baker`, who has `slot_count` slots; a state the node
    /// names otherwise than expected counts as missing.
    pub fn to_sortable(&self, baker: String, slot_count: usize) -> (res: EndorsementStatusSortable)
        requires
            self.times_ordered(),
        ensures
            res == self.sortable_of(baker, slot_count),
    {
        let broadcast_time_delta = if self.broadcast_time.is_some() && self.applied_time.is_some() {
            udiff_of(self.broadcast_time, self.applied_time)
        } else {
            udiff_of(self.broadcast_time, self.prechecked_time)
        };
        let state = match EndorsementState::from_str(self.state.as_str()) {
            Ok(s) => s,
            Err(_) => EndorsementState::default(),
        };
        EndorsementStatusSortable {
            delta: udiff_of(self.broadcast_time, self.received_hash_time),
            decoded_time: self.decoded_time,
            received_hash_time: self.received_hash_time,
            received_contents_time: self.received_contents_time,
            applied_time: self.applied_time,
            prechecked_time: self.prechecked_time,
            broadcast_time: self.broadcast_time,
            state,
            received_contents_time_delta: udiff_of(self.received_contents_time, self.received_hash_time),
            decoded_time_delta: udiff_of(self.decoded_time, self.received_contents_time),
            prechecked_time_delta: udiff_of(self.prechecked_time, self.decoded_time),
            applied_time_delta: udiff_of(self.applied_time, self.decoded_time),
            broadcast_time_delta,
            baker,
            slot_count,
        }
    }
}

impl EndorsementStatusSortable {
    /// The row of a baker of whom nothing was seen.
    pub open spec fn missing_row(baker: String, slot_count: usize) -> EndorsementStatusSortable {
        EndorsementStatusSortable {
            delta: None,
            decoded_time: None,
            received_hash_time: None,
            received_contents_time: None,
            applied_time: None,
            prechecked_time: None,
            broadcast_time: None,
            state: EndorsementState::Missing,
            received_contents_time_delta: None,
            decoded_time_delta: None,
            prechecked_time_delta: None,
            applied_time_delta: None,
            broadcast_time_delta: None,
            baker,
            slot_count,
        }
    }

    /// The row of `baker`, who has `slot_count` slots, with no times and the
    /// state `Missing`.
    pub fn new(baker: String, slot_count: usize) -> (res: EndorsementStatusSortable)
        ensures
            res == EndorsementStatusSortable::missing_row(baker, slot_count),
    {
        EndorsementStatusSortable {
            delta: None,
            decoded_time: None,
            received_hash_time: None,
            received_contents_time: None,
            applied_time: None,
            prechecked_time: None,
            broadcast_time: None,
            state: EndorsementState::Missing,
            received_contents_time_delta: None,
            decoded_time_delta: None,
            prechecked_time_delta: None,
            applied_time_delta: None,
            broadcast_time_delta: None,
            baker,
            slot_count,
        }
    }
}

/// The cell of an optional time in nanoseconds.
pub open spec fn time_cell(o: Option<u64>) -> (CellText, CellStyle) {
    styled_time_cell(opt_u64(o))
}

fn time_cell_of(o: Option<u64>) -> (res: (CellContent, CellStyle))
    ensures
        (res.0@, res.1) == time_cell(o),
{
    styled_time(widen_u64(o))
}

impl TuiTableData for EndorsementStatusSortable {
    open spec fn table_row(&self, delta_toggle: bool) -> Seq<(CellText, CellStyle)> {
        let white = CellStyle::dimmed(Color::White);
        seq![
            (CellText::Text(nat_to_decimal(self.slot_count as nat)), white),
            (CellText::Text(self.baker@), white),
            (CellText::Text(state_name(self.state)), CellStyle::on(state_color(self.state))),
            time_cell(self.delta),
            time_cell(self.received_hash_time),
            time_cell(if delta_toggle { self.received_contents_time_delta } else { self.received_contents_time }),
            time_cell(if delta_toggle { self.decoded_time_delta } else { self.decoded_time }),
            time_cell(if delta_toggle { self.prechecked_time_delta } else { self.prechecked_time }),
            time_cell(if delta_toggle { self.applied_time_delta } else { self.applied_time }),
            time_cell(if delta_toggle { self.broadcast_time_delta } else { self.broadcast_time }),
        ]
    }

    fn construct_tui_table_data(&self, delta_toggle: bool) -> (res: Vec<(CellContent, CellStyle)>) {
        let white = CellStyle { fg: Some(Color::White), bg: None, dim: true };
        let mut v: Vec<(CellContent, CellStyle)> = Vec::new();
        v.push((CellContent::Text(usize_to_string(self.slot_count)), white));
        v.push((CellContent::Text(self.baker.clone()), white));
        v.push((CellContent::Text(self.state.to_string()), self.state.get_style()));
        v.push(time_cell_of(self.delta));
        v.push(time_cell_of(self.received_hash_time));
        if delta_toggle {
            v.push(time_cell_of(self.received_contents_time_delta));
            v.push(time_cell_of(self.decoded_time_delta));
            v.push(time_cell_of(self.prechecked_time_delta));
            v.push(time_cell_of(self.applied_time_delta));
            v.push(time_cell_of(self.broadcast_time_delta));
        } else {
            v.push(time_cell_of(self.received_contents_time));
            v.push(time_cell_of(self.decoded_time));
            v.push(time_cell_of(self.prechecked_time));
            v.push(time_cell_of(self.applied_time));
            v.push(time_cell_of(self.broadcast_time));
        }
        assert(row_view(v@) =~= self.table_row(delta_toggle));
        v
    }
}

/// The key of an optional time.
pub open spec fn utime_key(o: Option<u64>) -> SortKeyView {
    opt_key(opt_u64(o))
}

fn utime_key_exec(o: Option<u64>) -> (k: SortKey)
    ensures
        k@ == utime_key(o),
{
    match o {
        Some(v) => SortKey::Int(v as i128),
        None => SortKey::Int(-0x1_0000_0000_0000_0000i128),
    }
}

impl FocusKey for EndorsementStatusSortable {
    open spec fn key_columns() -> nat {
        10
    }

    open spec fn focus_key(&self, focus_index: usize, delta_toggle: bool) -> SortKeyView {
        if focus_index == 0 {
            SortKeyView::Int(self.slot_count as int)
        } else if focus_index == 1 {
            SortKeyView::Text(self.baker@)
        } else if focus_index == 2 {
            SortKeyView::Int(state_rank(self.state))
        } else if focus_index == 3 {
            utime_key(self.delta)
        } else if focus_index == 4 {
            utime_key(self.received_hash_time)
        } else if focus_index == 5 {
            utime_key(if delta_toggle { self.received_contents_time_delta } else { self.received_contents_time })
        } else if focus_index == 6 {
            utime_key(if delta_toggle { self.decoded_time_delta } else { self.decoded_time })
        } else if focus_index == 7 {
            utime_key(if delta_toggle { self.prechecked_time_delta } else { self.prechecked_time })
        } else if focus_index == 8 {
            utime_key(if delta_toggle { self.applied_time_delta } else { self.applied_time })
        } else {
            utime_key(if delta_toggle { self.broadcast_time_delta } else { self.broadcast_time })
        }
    }

    fn key_column_count() -> (n: usize) {
        10
    }

    fn focus_key_exec(&self, focus_index: usize, delta_toggle: bool) -> (k: SortKey) {
        if focus_index == 0 {
            SortKey::Int(self.slot_count as i128)
        } else if focus_index == 1 {
            SortKey::Text(self.baker.clone())
        } else if focus_index == 2 {
            SortKey::Int(self.state.rank() as i128)
        } else if focus_index == 3 {
            utime_key_exec(self.delta)
        } else if focus_index == 4 {
            utime_key_exec(self.received_hash_time)
        } else if focus_index == 5 {
            utime_key_exec(if delta_toggle { self.received_contents_time_delta } else { self.received_contents_time })
        } else if focus_index == 6 {
            utime_key_exec(if delta_toggle { self.decoded_time_delta } else { self.decoded_time })
        } else if focus_index == 7 {
            utime_key_exec(if delta_toggle { self.prechecked_time_delta } else { self.prechecked_time })
        } else if focus_index == 8 {
            utime_key_exec(if delta_toggle { self.applied_time_delta } else { self.applied_time })
        } else {
            utime_key_exec(if delta_toggle { self.broadcast_time_delta } else { self.broadcast_time })
        }
    }
}

/// The row of an endorsement status keeps the status's times as they are,
/// shows the baker and slot count it is given and the state the node names
/// (missing where the name is none), and measures each step from the step
/// before it: a difference is known exactly where both ends are, and adds up
/// with the earlier end to the later. The broadcast is measured from the
/// application, or from the precheck where the endorsement was not applied.
pub proof fn lemma_status_row_keeps_the_times(status: EndorsementStatus, baker: String, slot_count: usize)
    requires
        status.times_ordered(),
    ensures
        ({
            let row = status.sortable_of(baker, slot_count);
            &&& row.baker == baker && row.slot_count == slot_count
            &&& row.received_hash_time == status.received_hash_time
            &&& row.received_contents_time == status.received_contents_time
            &&& row.decoded_time == status.decoded_time
            &&& row.prechecked_time == status.prechecked_time
            &&& row.applied_time == status.applied_time
            &&& row.broadcast_time == status.broadcast_time
            &&& (state_from_text(status.state@) matches Some(st) ==> row.state == st)
            &&& (state_from_text(status.state@) is None ==> row.state == EndorsementState::Missing)
            &&& measured_from(row.delta, status.broadcast_time, status.received_hash_time)
            &&& measured_from(row.received_contents_time_delta, status.received_contents_time, status.received_hash_time)
            &&& measured_from(row.decoded_time_delta, status.decoded_time, status.received_contents_time)
            &&& measured_from(row.prechecked_time_delta, status.prechecked_time, status.decoded_time)
            &&& measured_from(row.applied_time_delta, status.applied_time, status.decoded_time)
            &&& (status.applied_time is Some ==> measured_from(row.broadcast_time_delta, status.broadcast_time, status.applied_time))
            &&& (status.applied_time is None ==> measured_from(row.broadcast_time_delta, status.broadcast_time, status.prechecked_time))
        }),
{
}

/// Each column of the endorsement table is sorted by what it shows: the
/// slot count by the number written in its cell, the baker by its name, the
/// state by the state whose name is shown, and each time column by the time
/// its cell shows, where a dash sorts before every time; with relative or
/// absolute times alike.
pub proof fn lemma_endorsement_columns_sort_by_what_they_show(row: EndorsementStatusSortable, delta_toggle: bool)
    ensures
        row.focus_key(0, delta_toggle) matches SortKeyView::Int(n) && n >= 0
            && row.table_row(delta_toggle)[0].0 == CellText::Text(nat_to_decimal(n as nat)),
        row.focus_key(1, delta_toggle) matches SortKeyView::Text(t)
            && row.table_row(delta_toggle)[1].0 == CellText::Text(t),
        row.focus_key(2, delta_toggle) matches SortKeyView::Int(r)
            && row.table_row(delta_toggle)[2].0 == CellText::Text(state_name(state_of_rank(r))),
        forall|c: usize| 3 <= c < 10 ==> #[trigger] row.focus_key(c, delta_toggle)
            == opt_key(shown_time(row.table_row(delta_toggle)[c as int].0)),
{
    let r = row.table_row(delta_toggle);
    assert(state_of_rank(state_rank(row.state)) == row.state);
    assert forall|c: usize| 3 <= c < 10 implies #[trigger] row.focus_key(c, delta_toggle)
        == opt_key(shown_time(r[c as int].0)) by {
    }
}

pub type EndorsementStatusSortableVec = Vec<EndorsementStatusSortable>;

/// `i` is the status that a baker with `slots` is shown with: of the
/// statuses whose slot is one of the baker's, one with the smallest slot, and
/// of those with that slot the last one given.
pub open spec fn is_best_match(st: Seq<(String, EndorsementStatus)>, slots: Seq<u32>, i: int) -> bool {
    &&& 0 <= i < st.len()
    &&& slots.contains(st[i].1.slot)
    &&& forall|j: int| 0 <= j < st.len() && slots.contains(#[trigger] st[j].1.slot) ==> st[i].1.slot <= st[j].1.slot
    &&& forall|j: int| i < j < st.len() ==> (#[trigger] st[j]).1.slot != st[i].1.slot
}

/// No status has a slot of the baker's.
pub open spec fn no_match(st: Seq<(String, EndorsementStatus)>, slots: Seq<u32>) -> bool {
    forall|j: int| 0 <= j < st.len() ==> !slots.contains(#[trigger] st[j].1.slot)
}

/// The status that a baker with `slots` is shown with, if any.
pub open spec fn best_match(st: Seq<(String, EndorsementStatus)>, slots: Seq<u32>) -> Option<int> {
    if exists|i: int| is_best_match(st, slots, i) {
        Some(choose|i: int| is_best_match(st, slots, i))
    } else {
        None
    }
}

/// At most one status is the one a baker is shown with.
pub proof fn lemma_best_match_unique(st: Seq<(String, EndorsementStatus)>, slots: Seq<u32>, i: int, j: int)
    requires
        is_best_match(st, slots, i),
        is_best_match(st, slots, j),
    ensures
        i == j,
{
    assert(st[i].1.slot <= st[j].1.slot);
    assert(st[j].1.slot <= st[i].1.slot);
    if i < j {
        assert(st[j].1.slot != st[i].1.slot);
    } else if j < i {
        assert(st[i].1.slot != st[j].1.slot);
    }
}

/// Whether `x` is one of `slots`.
pub fn contains_slot(slots: &Vec<u32>, x: u32) -> (res: bool)
    ensures
        res == slots@.contains(x),
{
    let mut i: usize = 0;
    while i < slots.len()
        invariant
            i <= slots@.len(),
            forall|k: int| 0 <= k < i ==> slots@[k] != x,
        decreases slots@.len() - i,
    {
        if slots[i] == x {
            assert(slots@[i as int] == x);
            return true;
        }
        i = i + 1;
    }
    false
}

/// The position of the status that a baker with `slots` is shown with.
pub fn find_best_match(st: &Vec<(String, EndorsementStatus)>, slots: &Vec<u32>) -> (res: Option<usize>)
    ensures
        match res {
            Some(i) => is_best_match(st@, slots@, i as int) && best_match(st@, slots@) == Some(i as int),
            None => no_match(st@, slots@) && best_match(st@, slots@) is None,
        },
{
    let mut best: Option<usize> = None;
    let mut k: usize = 0;
    while k < st.len()
        invariant
            k <= st@.len(),
            match best {
                Some(b) => is_best_match(st@.take(k as int), slots@, b as int),
                None => no_match(st@.take(k as int), slots@),
            },
        decreases st@.len() - k,
    {
        let ghost p = st@.take(k as int);
        let ghost q = st@.take(k + 1);
        assert forall|j: int| 0 <= j < k implies q[j] == p[j] && p[j] == st@[j] by {}
        assert(q[k as int] == st@[k as int]);
        let s = st[k].1.slot;
        if contains_slot(slots, s) {
            match best {
                Some(b) => {
                    if s <= st[b].1.slot {
                        best = Some(k);
                    }
                },
                None => {
                    best = Some(k);
                },
            }
        }
        k = k + 1;
    }
    assert(st@.take(st@.len() as int) =~= st@);
    match best {
        Some(b) => {
            proof {
                assert(is_best_match(st@, slots@, b as int));
                let c = choose|i: int| is_best_match(st@, slots@, i);
                lemma_best_match_unique(st@, slots@, b as int, c);
            }
        },
        None => {
            assert(!exists|i: int| is_best_match(st@, slots@, i));
        },
    }
    best
}

/// The row of a baker with `slots` among the statuses `st`.
pub open spec fn row_for(st: Seq<(String, EndorsementStatus)>, baker: String, slots: Vec<u32>) -> EndorsementStatusSortable {
    match best_match(st, slots@) {
        Some(i) => st[i].1.sortable_of(baker, slots.len()),
        None => EndorsementStatusSortable::missing_row(baker, slots.len()),
    }
}

/// The status matched to each baker with rights has its steps in order;
/// statuses that no baker is matched to are not looked at.
pub open spec fn matched_times_ordered(rights: Seq<(String, Vec<u32>)>, st: Seq<(String, EndorsementStatus)>) -> bool {
    forall|j: int| 0 <= j < rights.len() ==> match #[trigger] best_match(st, rights[j].1@) {
        Some(i) => st[i].1.times_ordered(),
        None => true,
    }
}

/// The rows of the endorsement table: one per baker with rights, in the
/// order of the rights.
pub open spec fn status_rows(rights: Seq<(String, Vec<u32>)>, st: Seq<(String, EndorsementStatus)>) -> Seq<EndorsementStatusSortable> {
    rights.map_values(|r: (String, Vec<u32>)| row_for(st, r.0, r.1))
}

/// The endorsement table has one row per baker with rights, in the order of
/// the rights, showing the baker and how many slots it has. A baker none of
/// whose slots has a status is shown as missing, with no times; otherwise
/// it is shown with the times and the state of the status of its smallest
/// slot that has one.
pub proof fn lemma_rows_follow_the_rights(rights: Seq<(String, Vec<u32>)>, st: Seq<(String, EndorsementStatus)>)
    requires
        matched_times_ordered(rights, st),
    ensures
        status_rows(rights, st).len() == rights.len(),
        forall|j: int| 0 <= j < rights.len() ==> {
            let row = #[trigger] status_rows(rights, st)[j];
            &&& row.baker == rights[j].0
            &&& row.slot_count == rights[j].1@.len()
            &&& no_match(st, rights[j].1@) ==> {
                &&& row.state == EndorsementState::Missing
                &&& row.received_hash_time is None && row.received_contents_time is None
                &&& row.decoded_time is None && row.prechecked_time is None
                &&& row.applied_time is None && row.broadcast_time is None && row.delta is None
            }
            &&& forall|i: int| #[trigger] is_best_match(st, rights[j].1@, i) ==> {
                &&& row.received_hash_time == st[i].1.received_hash_time
                &&& row.received_contents_time == st[i].1.received_contents_time
                &&& row.decoded_time == st[i].1.decoded_time
                &&& row.prechecked_time == st[i].1.prechecked_time
                &&& row.applied_time == st[i].1.applied_time
                &&& row.broadcast_time == st[i].1.broadcast_time
                &&& (state_from_text(st[i].1.state@) matches Some(s) ==> row.state == s)
                &&& (state_from_text(st[i].1.state@) is None ==> row.state == EndorsementState::Missing)
            }
        },
{
    assert forall|j: int| 0 <= j < rights.len() implies {
        let row = #[trigger] status_rows(rights, st)[j];
        &&& row.baker == rights[j].0
        &&& row.slot_count == rights[j].1@.len()
        &&& no_match(st, rights[j].1@) ==> {
            &&& row.state == EndorsementState::Missing
            &&& row.received_hash_time is None && row.received_contents_time is None
            &&& row.decoded_time is None && row.prechecked_time is None
            &&& row.applied_time is None && row.broadcast_time is None && row.delta is None
        }
        &&& forall|i: int| #[trigger] is_best_match(st, rights[j].1@, i) ==> {
            &&& row.received_hash_time == st[i].1.received_hash_time
            &&& row.received_contents_time == st[i].1.received_contents_time
            &&& row.decoded_time == st[i].1.decoded_time
            &&& row.prechecked_time == st[i].1.prechecked_time
            &&& row.applied_time == st[i].1.applied_time
            &&& row.broadcast_time == st[i].1.broadcast_time
            &&& (state_from_text(st[i].1.state@) matches Some(s) ==> row.state == s)
            &&& (state_from_text(st[i].1.state@) is None ==> row.state == EndorsementState::Missing)
        }
    } by {
        let slots = rights[j].1@;
        if no_match(st, slots) {
            if exists|i: int| is_best_match(st, slots, i) {
                let i = choose|i: int| is_best_match(st, slots, i);
                assert(slots.contains(st[i].1.slot));
            }
        }
        assert forall|i: int| #[trigger] is_best_match(st, slots, i) implies
            best_match(st, slots) == Some(i) by {
            let c = choose|c: int| is_best_match(st, slots, c);
            lemma_best_match_unique(st, slots, i, c);
        }
    }
}

/// The slots held by the rows in state `s`.
pub open spec fn state_total(rows: Seq<EndorsementStatusSortable>, s: EndorsementState) -> int
    decreases rows.len(),
{
    if rows.len() == 0 {
        0
    } else {
        state_total(rows.drop_last(), s) + if rows.last().state == s { rows.last().slot_count as int } else { 0 }
    }
}

/// The slots held by all rows.
pub open spec fn slot_total(rows: Seq<EndorsementStatusSortable>) -> int
    decreases rows.len(),
{
    if rows.len() == 0 {
        0
    } else {
        slot_total(rows.drop_last()) + rows.last().slot_count as int
    }
}

/// The slots of all bakers with rights.
pub open spec fn rights_total(rights: Seq<(String, Vec<u32>)>) -> int
    decreases rights.len(),
{
    if rights.len() == 0 {
        0
    } else {
        rights_total(rights.drop_last()) + rights.last().1.len() as int
    }
}

/// Some row is in state `s`.
pub open spec fn state_seen(rows: Seq<EndorsementStatusSortable>, s: EndorsementState) -> bool {
    exists|j: int| 0 <= j < rows.len() && (#[trigger] rows[j]).state == s
}

/// `summary` counts the slots of each state that some row is in, in the order
/// of the states.
pub open spec fn is_status_summary(rows: Seq<EndorsementStatusSortable>, summary: Seq<(EndorsementState, usize)>) -> bool {
    &&& forall|a: int, b: int| 0 <= a < b < summary.len() ==> state_rank(summary[a].0) < state_rank(summary[b].0)
    &&& forall|s: EndorsementState| #[trigger] state_seen(rows, s) <==> exists|k: int| 0 <= k < summary.len() && summary[k].0 == s
    &&& forall|k: int| 0 <= k < summary.len() ==> summary[k].1 == state_total(rows, #[trigger] summary[k].0)
}

/// The slots counted for a state are the slots of the rows in that state.
pub proof fn lemma_state_total_counts_its_rows(rows: Seq<EndorsementStatusSortable>, s: EndorsementState)
    ensures
        state_total(rows, s) == slot_total(rows.filter(|r: EndorsementStatusSortable| r.state == s)),
    decreases rows.len(),
{
    reveal(Seq::filter);
    if rows.len() > 0 {
        lemma_state_total_counts_its_rows(rows.drop_last(), s);
        let pred = |r: EndorsementStatusSortable| r.state == s;
        let f = rows.drop_last().filter(pred);
        if rows.last().state == s {
            assert(f.push(rows.last()).drop_last() =~= f);
        }
    }
}

/// The slots of one state are at most those of all rows.
pub proof fn lemma_state_total_bounded(rows: Seq<EndorsementStatusSortable>, s: EndorsementState)
    ensures
        0 <= state_total(rows, s) <= slot_total(rows),
    decreases rows.len(),
{
    if rows.len() > 0 {
        lemma_state_total_bounded(rows.drop_last(), s);
    }
}

/// The rows of the bakers hold the slots of their rights.
pub proof fn lemma_rows_total(rights: Seq<(String, Vec<u32>)>, st: Seq<(String, EndorsementStatus)>)
    ensures
        slot_total(status_rows(rights, st)) == rights_total(rights),
    decreases rights.len(),
{
    if rights.len() > 0 {
        lemma_rows_total(rights.drop_last(), st);
        assert(status_rows(rights, st).drop_last() =~= status_rows(rights.drop_last(), st));
    }
}

/// A prefix of the rights holds at most the slots of all of them.
pub proof fn lemma_rights_total_prefix(rights: Seq<(String, Vec<u32>)>, n: int)
    requires
        0 <= n <= rights.len(),
    ensures
        0 <= rights_total(rights.take(n)) <= rights_total(rights),
    decreases rights.len() - n,
{
    if n < rights.len() {
        lemma_rights_total_prefix(rights, n + 1);
        assert(rights.take(n + 1).drop_last() =~= rights.take(n));
    } else {
        assert(rights.take(n) =~= rights);
    }
    lemma_rights_total_nonnegative(rights.take(n));
}

pub proof fn lemma_rights_total_nonnegative(rights: Seq<(String, Vec<u32>)>)
    ensures
        rights_total(rights) >= 0,
    decreases rights.len(),
{
    if rights.len() > 0 {
        lemma_rights_total_nonnegative(rights.drop_last());
    }
}

/// Whether the slots of all bakers can be counted in a `usize`.
pub fn rights_total_fits(rights: &Vec<(String, Vec<u32>)>) -> (res: bool)
    ensures
        res == (rights_total(rights@) <= usize::MAX),
{
    let mut total: usize = 0;
    let mut i: usize = 0;
    while i < rights.len()
        invariant
            i <= rights@.len(),
            total == rights_total(rights@.take(i as int)),
        decreases rights@.len() - i,
    {
        assert(rights@.take(i + 1).drop_last() =~= rights@.take(i as int));
        let n = rights[i].1.len();
        if total > usize::MAX - n {
            proof {
                lemma_rights_total_prefix(rights@, i + 1);
            }
            return false;
        }
        total = total + n;
        i = i + 1;
    }
    assert(rights@.take(rights@.len() as int) =~= rights@);
    true
}

/// Whether the statuses `st` can be taken.
pub fn check_statuses(state: &EndrosementsState, st: &Vec<(String, EndorsementStatus)>) -> (res: bool)
    ensures
        res == statuses_reducible(*state, st@),
{
    let rights = &state.endorsement_rights;
    let mut j: usize = 0;
    while j < rights.len()
        invariant
            j <= rights@.len(),
            rights@ == state.endorsement_rights@,
            forall|k: int| 0 <= k < j ==> match #[trigger] best_match(st@, rights@[k].1@) {
                Some(i) => st@[i].1.times_ordered(),
                None => true,
            },
        decreases rights@.len() - j,
    {
        match find_best_match(st, &rights[j].1) {
            Some(i) => {
                if !st[i].1.check_times() {
                    return false;
                }
            },
            None => {},
        }
        j = j + 1;
    }
    rights_total_fits(&state.endorsement_rights)
}

/// Whether the summary of an endorsement can be computed.
pub fn check_summary(op_stats: &OperationStats, block_stats: Option<&BlockApplicationStatistics>) -> (res: bool)
    ensures
        res == summary_fits(*op_stats, match block_stats { Some(b) => Some(*b), None => None }),
{
    let block_ok = match block_stats {
        Some(b) => crate::baking::span_ok_exec(b.apply_block_start, b.apply_block_end),
        None => true,
    };
    let sent = op_stats.first_sent();
    let requested = op_stats.first_content_requested_remote();
    let content_sent = op_stats.first_content_sent();
    let finished = op_stats.validation_ended();
    block_ok && sub_fits_exec(finished, op_stats.validation_started) && sub_fits_exec(sent, finished)
        && sub_fits_exec(requested, sent) && sub_fits_exec(content_sent, requested)
}

/// Whether the summary of the endorsement at `level` can be computed.
pub fn check_endorsement_summary(
    injected: &LevelMap<OperationStats>,
    application: &TextMap<BlockApplicationStatistics>,
    level: i32,
    hash: &str,
) -> (res: bool)
    ensures
        res == endorsement_summary_fits(injected@, application@, level as int, hash@),
{
    let block = application.get(hash);
    let block_ok = match block {
        Some(b) => crate::baking::span_ok_exec(b.apply_block_start, b.apply_block_end),
        None => true,
    };
    let op_ok = match injected.get(level) {
        Some(op) => check_summary(op, block),
        None => true,
    };
    block_ok && op_ok
}

/// Whether some row is in state `s`, and the slots of those rows.
fn state_count(rows: &Vec<EndorsementStatusSortable>, s: EndorsementState) -> (res: (bool, usize))
    requires
        slot_total(rows@) <= usize::MAX,
    ensures
        res.0 == state_seen(rows@, s),
        res.1 == state_total(rows@, s),
{
    let mut seen = false;
    let mut total: usize = 0;
    let mut j: usize = 0;
    while j < rows.len()
        invariant
            j <= rows@.len(),
            slot_total(rows@) <= usize::MAX,
            seen == state_seen(rows@.take(j as int), s),
            total == state_total(rows@.take(j as int), s),
        decreases rows@.len() - j,
    {
        let ghost p = rows@.take(j as int);
        let ghost q = rows@.take(j + 1);
        assert(q.drop_last() =~= p);
        assert(q.last() == rows@[j as int]);
        proof {
            lemma_state_total_bounded(q, s);
            lemma_slot_total_prefix(rows@, j + 1);
        }
        if rows[j].state == s {
            total = total + rows[j].slot_count;
            seen = true;
            assert(q[j as int].state == s);
        } else {
            assert forall|i: int| 0 <= i < q.len() && (#[trigger] q[i]).state == s implies 0 <= i < p.len() && p[i].state == s by {}
        }
        assert forall|i: int| 0 <= i < p.len() && (#[trigger] p[i]).state == s implies 0 <= i < q.len() && q[i].state == s by {
            assert(q[i] == p[i]);
        }
        j = j + 1;
    }
    assert(rows@.take(rows@.len() as int) =~= rows@);
    (seen, total)
}

/// A prefix of the rows holds at most the slots of all of them.
pub proof fn lemma_slot_total_prefix(rows: Seq<EndorsementStatusSortable>, n: int)
    requires
        0 <= n <= rows.len(),
    ensures
        slot_total(rows.take(n)) <= slot_total(rows),
    decreases rows.len() - n,
{
    if n < rows.len() {
        lemma_slot_total_prefix(rows, n + 1);
        assert(rows.take(n + 1).drop_last() =~= rows.take(n));
    } else {
        assert(rows.take(n) =~= rows);
    }
}

/// The number of slots of each state that some row is in, in the order of
/// the states.
pub fn summarize(rows: &Vec<EndorsementStatusSortable>) -> (res: Vec<(EndorsementState, usize)>)
    requires
        slot_total(rows@) <= usize::MAX,
    ensures
        is_status_summary(rows@, res@),
        summary_sum(res@) == slot_total(rows@),
{
    let states = [
        EndorsementState::Missing, EndorsementState::Broadcast, EndorsementState::Applied,
        EndorsementState::Prechecked, EndorsementState::Decoded, EndorsementState::Received,
    ];
    let mut res: Vec<(EndorsementState, usize)> = Vec::new();
    let mut r: usize = 0;
    while r < 6
        invariant
            r <= 6,
            slot_total(rows@) <= usize::MAX,
            forall|i: int| 0 <= i < 6 ==> state_rank(#[trigger] states@[i]) == i,
            forall|a: int, b: int| 0 <= a < b < res@.len() ==> state_rank(res@[a].0) < state_rank(res@[b].0),
            forall|k: int| 0 <= k < res@.len() ==> state_rank(#[trigger] res@[k].0) < r,
            forall|s: EndorsementState| state_rank(s) < r ==> (#[trigger] state_seen(rows@, s) <==> exists|k: int| 0 <= k < res@.len() && res@[k].0 == s),
            forall|k: int| 0 <= k < res@.len() ==> res@[k].1 == state_total(rows@, #[trigger] res@[k].0),
            summary_sum(res@) == ranked_total(rows@, r as int),
        decreases 6 - r,
    {
        let s = states[r];
        let c = state_count(rows, s);
        let ghost before = res@;
        assert(s == state_of_rank(r as int));
        if c.0 {
            res.push((s, c.1));
            assert(res@[before.len() as int].0 == s);
            assert(res@.drop_last() =~= before);
        } else {
            proof {
                lemma_unseen_total_zero(rows@, s);
            }
        }
        assert forall|t: EndorsementState| state_rank(t) < r + 1 implies (#[trigger] state_seen(rows@, t) <==> exists|k: int| 0 <= k < res@.len() && res@[k].0 == t) by {
            if state_rank(t) == r {
                assert(t == s);
                if c.0 {
                    assert(res@[before.len() as int].0 == t);
                } else {
                    assert forall|k: int| 0 <= k < res@.len() implies res@[k].0 != t by {
                        assert(state_rank(res@[k].0) < r);
                    }
                }
            } else {
                if exists|k: int| 0 <= k < before.len() && before[k].0 == t {
                    let k = choose|k: int| 0 <= k < before.len() && before[k].0 == t;
                    assert(res@[k] == before[k]);
                }
                if exists|k: int| 0 <= k < res@.len() && res@[k].0 == t {
                    let k = choose|k: int| 0 <= k < res@.len() && res@[k].0 == t;
                    if k < before.len() {
                        assert(before[k] == res@[k]);
                    }
                }
            }
        }
        r = r + 1;
    }
    assert forall|t: EndorsementState| #[trigger] state_seen(rows@, t) <==> exists|k: int| 0 <= k < res@.len() && res@[k].0 == t by {
        assert(state_rank(t) < 6);
    }
    proof {
        lemma_ranked_total_all(rows@);
    }
    res
}

/// The sum of the counts of a summary.
pub open spec fn summary_sum(summary: Seq<(EndorsementState, usize)>) -> int
    decreases summary.len(),
{
    if summary.len() == 0 {
        0
    } else {
        summary_sum(summary.drop_last()) + summary.last().1
    }
}

/// The slots of the rows in the states of the first `n` ranks.
pub open spec fn ranked_total(rows: Seq<EndorsementStatusSortable>, n: int) -> int
    decreases n,
{
    if n <= 0 {
        0
    } else {
        ranked_total(rows, n - 1) + state_total(rows, state_of_rank(n - 1))
    }
}

/// A state no row is in holds no slots.
pub proof fn lemma_unseen_total_zero(rows: Seq<EndorsementStatusSortable>, s: EndorsementState)
    requires
        !state_seen(rows, s),
    ensures
        state_total(rows, s) == 0,
    decreases rows.len(),
{
    if rows.len() > 0 {
        let d = rows.drop_last();
        assert(rows[rows.len() - 1] == rows.last());
        assert(!state_seen(d, s)) by {
            if state_seen(d, s) {
                let j = choose|j: int| 0 <= j < d.len() && (#[trigger] d[j]).state == s;
                assert(rows[j] == d[j]);
            }
        }
        lemma_unseen_total_zero(d, s);
    }
}

/// The slots of all states together are the slots of all rows.
pub proof fn lemma_ranked_total_all(rows: Seq<EndorsementStatusSortable>)
    ensures
        ranked_total(rows, 6) == slot_total(rows),
    decreases rows.len(),
{
    reveal_with_fuel(ranked_total, 7);
    if rows.len() > 0 {
        let d = rows.drop_last();
        lemma_ranked_total_all(d);
        assert(ranked_total(d, 6) == slot_total(d));
    }
}

/// The rank of a state names it again, and each rank names a state.
pub proof fn lemma_state_rank_bijective(s: EndorsementState, r: int)
    ensures
        state_of_rank(state_rank(s)) == s,
        0 <= r < 6 ==> state_rank(state_of_rank(r)) == r,
        0 <= state_rank(s) < 6,
{
}

/// The slots of one level that a delegate may endorse, with the estimated
/// time of the level.
#[derive(Debug, Clone)]
pub struct EndorsementRightsWithTimePerLevel {
    pub level: i32,
    pub slots: Vec<u16>,
    pub delegate: String,
    pub estimated_time: Option<Timestamp>,
}

/// The levels at which the baker may endorse, with the estimated times.
#[derive(Debug)]
pub struct EndorsementRightsWithTime {
    pub rights: LevelMap<Option<Timestamp>>,
}

/// The map after each right of `raw` was recorded in turn.
pub open spec fn with_endorsing_rights(
    m: Map<int, Option<Timestamp>>,
    raw: Seq<EndorsementRightsWithTimePerLevel>,
) -> Map<int, Option<Timestamp>>
    decreases raw.len(),
{
    if raw.len() == 0 {
        m
    } else {
        with_endorsing_rights(m, raw.drop_last()).insert(raw.last().level as int, raw.last().estimated_time)
    }
}

/// Recording endorsing rights gives each level the estimated time of its
/// last right and keeps the levels that no right names as they were.
pub proof fn lemma_endorsing_rights_keep_the_last_time(
    m: Map<int, Option<Timestamp>>,
    raw: Seq<EndorsementRightsWithTimePerLevel>,
)
    ensures
        last_entries_win(
            m,
            raw.map_values(|r: EndorsementRightsWithTimePerLevel| (r.level as int, r.estimated_time)),
            with_endorsing_rights(m, raw),
        ),
    decreases raw.len(),
{
    let f = |r: EndorsementRightsWithTimePerLevel| (r.level as int, r.estimated_time);
    if raw.len() == 0 {
        assert(raw.map_values(f) =~= Seq::<(int, Option<Timestamp>)>::empty());
    } else {
        let d = raw.drop_last();
        lemma_endorsing_rights_keep_the_last_time(m, d);
        assert(raw.map_values(f) =~= d.map_values(f).push(f(raw.last())));
        lemma_last_entries_win_push(m, d.map_values(f), with_endorsing_rights(m, d), f(raw.last()));
    }
}

impl EndorsementRightsWithTime {
    pub fn default() -> (res: EndorsementRightsWithTime)
        ensures
            res.rights@ == Map::<int, Option<Timestamp>>::empty(),
    {
        EndorsementRightsWithTime { rights: LevelMap::new() }
    }

    /// The rights of `raw`, each level with its estimated time; for a level
    /// given twice the later entry counts.
    pub fn new(raw: &Vec<EndorsementRightsWithTimePerLevel>) -> (res: EndorsementRightsWithTime)
        ensures
            res.rights@ == with_endorsing_rights(Map::empty(), raw@),
    {
        let mut rights: LevelMap<Option<Timestamp>> = LevelMap::new();
        let mut i: usize = 0;
        while i < raw.len()
            invariant
                i <= raw@.len(),
                rights@ == with_endorsing_rights(Map::empty(), raw@.take(i as int)),
            decreases raw@.len() - i,
        {
            assert(raw@.take(i + 1).drop_last() =~= raw@.take(i as int));
            rights.insert(raw[i].level, raw[i].estimated_time);
            i = i + 1;
        }
        assert(raw@.take(raw@.len() as int) =~= raw@);
        EndorsementRightsWithTime { rights }
    }

    /// The first level at or after `level` at which the baker may endorse.
    pub fn next_endorsing_level(&self, level: i32) -> (res: Option<i32>)
        ensures
            match res {
                Some(k) => is_next_level(self.rights@, level as int, k as int),
                None => no_next_level(self.rights@, level as int),
            },
    {
        match self.rights.next_from(level) {
            Some(e) => Some(e.0),
            None => None,
        }
    }

    /// The first level at or after `level` at which the baker may endorse,
    /// with how long until then as seen at the Unix second `now` when its
    /// time is known.
    pub fn next_endorsing_at(&self, level: i32, block_timestamp: Timestamp, block_delay: i32, now: i64) -> (res: Option<(i32, String)>)
        requires
            block_timestamp.valid(),
            min_unix_seconds() <= now <= max_unix_seconds(),
            countdown_fits(self.rights@, level as int, block_delay as int),
        ensures
            is_next_right(self.rights@, level as int, block_timestamp, block_delay as int, now as int, res),
    {
        next_right_at(&self.rights, level, &block_timestamp, block_delay, now)
    }

    /// As `next_endorsing_at`, with the clock read for now.
    pub fn next_endorsing(&self, level: i32, block_timestamp: Timestamp, block_delay: i32) -> (res: Option<(i32, String)>)
        requires
            block_timestamp.valid(),
            countdown_fits(self.rights@, level as int, block_delay as int),
        ensures
            exists|now: int| min_unix_seconds() <= now <= max_unix_seconds()
                && #[trigger] is_next_right(self.rights@, level as int, block_timestamp, block_delay as int, now, res),
    {
        next_right(&self.rights, level, &block_timestamp, block_delay)
    }
}

/// How long each step of the baker's own endorsement took, in nanoseconds.
#[derive(Debug, Clone, Copy, PartialEq, Eq, Structural)]
pub struct EndorsementOperationSummary {
    pub block_application: Option<i128>,
    pub block_received: Option<i128>,
    pub injected: Option<i128>,
    pub validated: Option<i128>,
    pub operation_hash_sent: Option<i128>,
    pub operation_requested: Option<i128>,
    pub operation_sent: Option<i128>,
    pub operation_hash_received_back: Option<u64>,
}

/// An optional wide time as an integer.
pub open spec fn opt_i128(o: Option<i128>) -> Option<int> {
    match o {
        Some(v) => Some(v as int),
        None => None,
    }
}

/// An optional time as an integer.
pub open spec fn opt_int(o: Option<i64>) -> Option<int> {
    match o {
        Some(v) => Some(v as int),
        None => None,
    }
}

fn widen_i64(o: Option<i64>) -> (res: Option<i128>)
    ensures
        opt_i128(res) == opt_int(o),
        res == narrow(opt_int(o)),
{
    match o {
        Some(v) => Some(v as i128),
        None => None,
    }
}

/// The differences that the summary of an endorsement takes can be computed:
/// the block's application does not end before it starts, and the node
/// times of the operation are within reach of each other.
pub open spec fn summary_fits(op_stats: OperationStats, block_stats: Option<BlockApplicationStatistics>) -> bool {
    &&& match block_stats {
        Some(b) => span_ok(b.apply_block_start, b.apply_block_end),
        None => true,
    }
    &&& sub_fits(op_stats.finished(), op_stats.validation_started)
    &&& sub_fits(earliest(op_stats.nodes@, NodeTimes::Sent), op_stats.finished())
    &&& sub_fits(earliest(op_stats.nodes@, NodeTimes::ContentRequestedRemote), earliest(op_stats.nodes@, NodeTimes::Sent))
    &&& sub_fits(earliest(op_stats.nodes@, NodeTimes::ContentSent), earliest(op_stats.nodes@, NodeTimes::ContentRequestedRemote))
}

/// An optional wide integer as an `i128`.
pub open spec fn narrow(o: Option<int>) -> Option<i128> {
    match o {
        Some(v) => Some(v as i128),
        None => None,
    }
}

/// The summary of an endorsement: when the block was received after the
/// head's timestamp, how long its application took, when the operation was
/// injected after the block was received, how long validation took, and the
/// time from validation to sending the hash, from sending to the first
/// request of the content and from the request to sending it.
pub open spec fn operation_summary(
    current_head_timestamp: Timestamp,
    op_stats: OperationStats,
    block_stats: Option<BlockApplicationStatistics>,
) -> EndorsementOperationSummary {
    let sent = earliest(op_stats.nodes@, NodeTimes::Sent);
    let requested = earliest(op_stats.nodes@, NodeTimes::ContentRequestedRemote);
    let content_sent = earliest(op_stats.nodes@, NodeTimes::ContentSent);
    EndorsementOperationSummary {
        block_received: match block_stats {
            Some(b) => Some((b.receive_timestamp - current_head_timestamp.nanos()) as i128),
            None => None,
        },
        block_application: match block_stats {
            Some(b) => match span(b.apply_block_start, b.apply_block_end) {
                Some(d) => Some(d as i128),
                None => None,
            },
            None => None,
        },
        injected: match op_stats.injected_timestamp {
            Some(t) => match block_stats {
                Some(b) => Some((t - b.receive_timestamp) as i128),
                None => None,
            },
            None => None,
        },
        validated: narrow(opt_int(opt_sub(op_stats.finished(), op_stats.validation_started))),
        operation_hash_sent: narrow(opt_int(opt_sub(sent, op_stats.finished()))),
        operation_requested: narrow(opt_int(opt_sub(requested, sent))),
        operation_sent: narrow(opt_int(opt_sub(content_sent, requested))),
        operation_hash_received_back: None,
    }
}

/// The summary of the baker's endorsement measures each step from the one
/// before it, known exactly where both ends are: the block's receipt from
/// the head's timestamp, its application from start to end, the injection
/// from the block's receipt, the validation from start to end, the sending
/// of the hash from the end of validation, the first request of the content
/// from the earliest sending, and the sending of the content from that
/// request, where each node time is the earliest over the node reports.
pub proof fn lemma_operation_summary_measures_each_step(
    timestamp: Timestamp,
    op_stats: OperationStats,
    block_stats: Option<BlockApplicationStatistics>,
)
    requires
        timestamp.valid(),
        summary_fits(op_stats, block_stats),
    ensures
        ({
            let s = operation_summary(timestamp, op_stats, block_stats);
            let sent = earliest(op_stats.nodes@, NodeTimes::Sent);
            let requested = earliest(op_stats.nodes@, NodeTimes::ContentRequestedRemote);
            let content_sent = earliest(op_stats.nodes@, NodeTimes::ContentSent);
            &&& is_earliest(op_stats.nodes@, NodeTimes::Sent, sent)
            &&& is_earliest(op_stats.nodes@, NodeTimes::ContentRequestedRemote, requested)
            &&& is_earliest(op_stats.nodes@, NodeTimes::ContentSent, content_sent)
            &&& (block_stats is None ==> s.block_received is None && s.block_application is None && s.injected is None)
            &&& (block_stats matches Some(b) ==> {
                &&& measured_wide(s.block_received, Some(b.receive_timestamp as int), Some(timestamp.nanos()))
                &&& measured_wide(s.block_application, wide_u64(b.apply_block_end), wide_u64(b.apply_block_start))
                &&& measured_wide(s.injected, wide_u64(op_stats.injected_timestamp), Some(b.receive_timestamp as int))
            })
            &&& measured_wide(s.validated, opt_int(op_stats.finished()), opt_int(op_stats.validation_started))
            &&& measured_wide(s.operation_hash_sent, opt_int(sent), opt_int(op_stats.finished()))
            &&& measured_wide(s.operation_requested, opt_int(requested), opt_int(sent))
            &&& measured_wide(s.operation_sent, opt_int(content_sent), opt_int(requested))
        }),
{
    lemma_earliest_is_least(op_stats.nodes@, NodeTimes::Sent);
    lemma_earliest_is_least(op_stats.nodes@, NodeTimes::ContentRequestedRemote);
    lemma_earliest_is_least(op_stats.nodes@, NodeTimes::ContentSent);
}

impl EndorsementOperationSummary {
    /// The summary before the baker endorsed anything.
    pub fn default() -> (res: EndorsementOperationSummary)
        ensures
            res == EndorsementOperationSummary::empty(),
    {
        EndorsementOperationSummary {
            block_application: None,
            block_received: None,
            injected: None,
            validated: None,
            operation_hash_sent: None,
            operation_requested: None,
            operation_sent: None,
            operation_hash_received_back: None,
        }
    }

    pub open spec fn empty() -> EndorsementOperationSummary {
        EndorsementOperationSummary {
            block_application: None,
            block_received: None,
            injected: None,
            validated: None,
            operation_hash_sent: None,
            operation_requested: None,
            operation_sent: None,
            operation_hash_received_back: None,
        }
    }

    /// The summary of an endorsement: when the block was received after the
    /// head's timestamp, how long its application took, when the operation
    /// was injected after the block was received, how long validation took,
    /// and the time from validation to sending the hash, from sending to the
    /// first request of the content and from the request to sending it.
    pub fn new(
        current_head_timestamp: Timestamp,
        op_stats: &OperationStats,
        block_stats: Option<&BlockApplicationStatistics>,
    ) -> (res: EndorsementOperationSummary)
        requires
            current_head_timestamp.valid(),
            summary_fits(*op_stats, match block_stats { Some(b) => Some(*b), None => None }),
        ensures
            res == operation_summary(current_head_timestamp, *op_stats, match block_stats { Some(b) => Some(*b), None => None }),
    {
        let block_received = match block_stats {
            Some(b) => Some((b.receive_timestamp as i128) - current_head_timestamp.unix_timestamp_nanos()),
            None => None,
        };
        let block_application = match block_stats {
            Some(b) => match b.apply_block_end {
                Some(end) => match b.apply_block_start {
                    Some(start) => Some((end - start) as i128),
                    None => None,
                },
                None => None,
            },
            None => None,
        };
        let injected = match op_stats.injected_timestamp {
            Some(t) => match block_stats {
                Some(b) => Some((t as i128) - (b.receive_timestamp as i128)),
                None => None,
            },
            None => None,
        };
        let validated = widen_i64(op_stats.validation_duration());
        let sent = op_stats.first_sent();
        let ended = op_stats.validation_ended();
        let requested = op_stats.first_content_requested_remote();
        let content_sent = op_stats.first_content_sent();
        let operation_hash_sent = widen_i64(crate::operations::sub_opt(sent, ended));
        let operation_requested = widen_i64(crate::operations::sub_opt(requested, sent));
        let operation_sent = widen_i64(crate::operations::sub_opt(content_sent, requested));
        EndorsementOperationSummary {
            block_application,
            block_received,
            injected,
            validated,
            operation_hash_sent,
            operation_requested,
            operation_sent,
            operation_hash_received_back: None,
        }
    }
}

/// The rows of the summary of an endorsement, in the order its steps happen.
pub open spec fn endorsement_summary_rows(s: EndorsementOperationSummary) -> Seq<(Seq<char>, Seq<char>, StyledTime)> {
    seq![
        (""@, "Block Received"@, StyledTime::styled(s.block_received)),
        (""@, "Block Application"@, StyledTime::styled(s.block_application)),
        (""@, "Endorsement Operation Injected"@, StyledTime::styled(s.injected)),
        (""@, "Endorsement Operation Validated"@, StyledTime::styled(s.validated)),
        (""@, "Endorsement Operation Hash Sent"@, StyledTime::styled(s.operation_hash_sent)),
        (""@, "Endorsement Operation Requested"@, StyledTime::styled(s.operation_requested)),
        (""@, "Endorsement Operation Sent"@, StyledTime::styled(s.operation_sent)),
    ]
}

impl EndorsementOperationSummary {
    /// The rows of the summary table: each step of the endorsement with its
    /// time.
    pub fn to_table_data(&self) -> (res: Vec<SummaryRow>)
        ensures
            summary_view(res@) == endorsement_summary_rows(*self),
    {
        let mut out: Vec<SummaryRow> = Vec::new();
        out.push(summary_row("", "Block Received", self.block_received));
        out.push(summary_row("", "Block Application", self.block_application));
        out.push(summary_row("", "Endorsement Operation Injected", self.injected));
        out.push(summary_row("", "Endorsement Operation Validated", self.validated));
        out.push(summary_row("", "Endorsement Operation Hash Sent", self.operation_hash_sent));
        out.push(summary_row("", "Endorsement Operation Requested", self.operation_requested));
        out.push(summary_row("", "Endorsement Operation Sent", self.operation_sent));
        assert(summary_view(out@) =~= endorsement_summary_rows(*self));
        out
    }
}

/// The rows of the endorsement table for the bakers with `rights`, given the
/// statuses `st` that the node reported.
pub fn rows_of(rights: &Vec<(String, Vec<u32>)>, st: &Vec<(String, EndorsementStatus)>) -> (res: Vec<EndorsementStatusSortable>)
    requires
        matched_times_ordered(rights@, st@),
    ensures
        res@ == status_rows(rights@, st@),
        keys_ascending(rights@) ==> forall|i: int, j: int|
            0 <= i < j < res@.len() ==> text_le((#[trigger] res@[i]).baker@, (#[trigger] res@[j]).baker@)
                && res@[i].baker@ != res@[j].baker@,
{
    let mut res: Vec<EndorsementStatusSortable> = Vec::new();
    let mut j: usize = 0;
    while j < rights.len()
        invariant
            j <= rights@.len(),
            matched_times_ordered(rights@, st@),
            res@ == status_rows(rights@.take(j as int), st@),
        decreases rights@.len() - j,
    {
        let baker = rights[j].0.clone();
        let slots = &rights[j].1;
        let row = match find_best_match(st, slots) {
            Some(i) => st[i].1.to_sortable(baker, slots.len()),
            None => EndorsementStatusSortable::new(baker, slots.len()),
        };
        res.push(row);
        assert(status_rows(rights@.take(j + 1), st@) =~= status_rows(rights@.take(j as int), st@).push(row_for(st@, rights@[j as int].0, rights@[j as int].1)));
        j = j + 1;
    }
    assert(rights@.take(rights@.len() as int) =~= rights@);
    assert forall|a: int| 0 <= a < res@.len() implies (#[trigger] res@[a]).baker == rights@[a].0 by {
        match best_match(st@, rights@[a].1@) {
            Some(k) => {},
            None => {},
        }
    }
    res
}

/// The column headers of the endorsement table.
pub open spec fn endorsement_headers() -> Seq<Seq<char>> {
    seq![
        "Slots"@, "Baker"@, "Status"@, "Delta"@, "Receive hash"@, "Receive content"@, "Decode"@,
        "Precheck"@, "Apply"@, "Broadcast"@,
    ]
}

/// Each column of the endorsement table shows what its header names: the
/// slot count, the baker, the state, the delta from receipt to broadcast,
/// the receipt of the hash, and the receipt of the content, the decoding,
/// the precheck, the application and the broadcast, each of these last as
/// its time or, with relative times, as its time after the step before it.
pub proof fn lemma_endorsement_columns_match_headers(row: EndorsementStatusSortable, delta_toggle: bool)
    ensures
        ({
            let h = endorsement_headers();
            let c = row.table_row(delta_toggle);
            &&& h.len() == 10 && c.len() == 10
            &&& h[0] == "Slots"@ && c[0].0 == CellText::Text(nat_to_decimal(row.slot_count as nat))
            &&& h[1] == "Baker"@ && c[1].0 == CellText::Text(row.baker@)
            &&& h[2] == "Status"@ && c[2].0 == CellText::Text(state_name(row.state))
            &&& h[3] == "Delta"@ && c[3] == time_cell(row.delta)
            &&& h[4] == "Receive hash"@ && c[4] == time_cell(row.received_hash_time)
            &&& h[5] == "Receive content"@ && c[5] == time_cell(
                if delta_toggle { row.received_contents_time_delta } else { row.received_contents_time })
            &&& h[6] == "Decode"@ && c[6] == time_cell(if delta_toggle { row.decoded_time_delta } else { row.decoded_time })
            &&& h[7] == "Precheck"@ && c[7] == time_cell(
                if delta_toggle { row.prechecked_time_delta } else { row.prechecked_time })
            &&& h[8] == "Apply"@ && c[8] == time_cell(if delta_toggle { row.applied_time_delta } else { row.applied_time })
            &&& h[9] == "Broadcast"@ && c[9] == time_cell(
                if delta_toggle { row.broadcast_time_delta } else { row.broadcast_time })
        }),
{
}

/// The column constraints of the endorsement table.
pub open spec fn endorsement_constraints() -> Seq<Constraint> {
    seq![
        Constraint::Length(7), Constraint::Length(36), Constraint::Min(11), Constraint::Min(8),
        Constraint::Min(14), Constraint::Min(17), Constraint::Min(9), Constraint::Min(11),
        Constraint::Min(9), Constraint::Min(12),
    ]
}

/// The endorsement screen: the rights of the bakers of the current level and
/// how far their endorsements got, the baker's own rights and the summary of
/// the baker's last endorsement.
#[derive(Debug)]
pub struct EndrosementsState {
    /// The slots of each baker, in the order of the bakers' addresses.
    pub endorsement_rights: Vec<(String, Vec<u32>)>,
    /// The slots in each state, in the order of the states.
    pub endoresement_status_summary: Vec<(EndorsementState, usize)>,
    pub endorsement_rights_with_time: EndorsementRightsWithTime,
    pub injected_endorsement_stats: LevelMap<OperationStats>,
    pub last_endorsement_operation: Option<String>,
    pub last_injected_endorsement_summary: EndorsementOperationSummary,
    pub last_endrosement_operation_level: i32,
    pub endorsement_table: ExtendedTable<EndorsementStatusSortableVec>,
}

/// The summary of the baker's endorsement at `level`, from the statistics of
/// the operation injected then (if any) and of the block with `hash`.
pub open spec fn endorsement_summary(
    injected: Map<int, OperationStats>,
    application: Map<Seq<char>, BlockApplicationStatistics>,
    level: int,
    hash: Seq<char>,
    timestamp: Timestamp,
) -> EndorsementOperationSummary {
    let block = if application.contains_key(hash) { Some(application[hash]) } else { None };
    if injected.contains_key(level) {
        operation_summary(timestamp, injected[level], block)
    } else {
        EndorsementOperationSummary {
            block_received: match block {
                Some(b) => Some((b.receive_timestamp - timestamp.nanos()) as i128),
                None => None,
            },
            block_application: match block {
                Some(b) => match span(b.apply_block_start, b.apply_block_end) {
                    Some(d) => Some(d as i128),
                    None => None,
                },
                None => None,
            },
            injected: None,
            validated: None,
            operation_hash_sent: None,
            operation_requested: None,
            operation_sent: None,
            operation_hash_received_back: None,
        }
    }
}

/// The summary of the endorsement at `level` can be computed.
pub open spec fn endorsement_summary_fits(
    injected: Map<int, OperationStats>,
    application: Map<Seq<char>, BlockApplicationStatistics>,
    level: int,
    hash: Seq<char>,
) -> bool {
    let block = if application.contains_key(hash) { Some(application[hash]) } else { None };
    &&& match block {
        Some(b) => span_ok(b.apply_block_start, b.apply_block_end),
        None => true,
    }
    &&& injected.contains_key(level) ==> summary_fits(injected[level], block)
}

/// The statuses `st` can be taken: in the status matched to each baker no
/// step comes before the one it follows, and the slots of all bakers can be
/// counted.
pub open spec fn statuses_reducible(old: EndrosementsState, st: Seq<(String, EndorsementStatus)>) -> bool {
    &&& matched_times_ordered(old.endorsement_rights@, st)
    &&& rights_total(old.endorsement_rights@) <= usize::MAX
}

/// `new` is `old` after taking the statuses `st`.
pub open spec fn after_statuses(old: EndrosementsState, st: Seq<(String, EndorsementStatus)>, delta_toggle: bool, new: EndrosementsState) -> bool {
    &&& st.len() == 0 ==> new == old
    &&& st.len() > 0 ==> {
        let rows = status_rows(old.endorsement_rights@, st);
        &&& new.endorsement_table.content@ == ordered_items(
            rows,
            old.endorsement_table.sorted_by,
            old.endorsement_table.sort_order,
            delta_toggle,
        )
        &&& new.endorsement_table.same_layout(&old.endorsement_table)
        &&& is_status_summary(rows, new.endoresement_status_summary@)
        &&& summary_sum(new.endoresement_status_summary@) == rights_total(old.endorsement_rights@)
        &&& new.endorsement_rights == old.endorsement_rights
        &&& new.endorsement_rights_with_time == old.endorsement_rights_with_time
        &&& new.injected_endorsement_stats == old.injected_endorsement_stats
        &&& new.last_endorsement_operation == old.last_endorsement_operation
        &&& new.last_injected_endorsement_summary == old.last_injected_endorsement_summary
        &&& new.last_endrosement_operation_level == old.last_endrosement_operation_level
    }
}

/// `new` is `old` after taking the mempool statistics `reports` at `level`.
pub open spec fn after_mempool_stats(old: EndrosementsState, reports: Seq<(String, OperationStats)>, level: i32, new: EndrosementsState) -> bool {
    &&& match first_injected(reports) {
        Some(i) => new.injected_endorsement_stats@ == old.injected_endorsement_stats@.insert(level as int, reports[i].1),
        None => new.injected_endorsement_stats@ == old.injected_endorsement_stats@,
    }
    &&& new.endorsement_rights == old.endorsement_rights
    &&& new.endoresement_status_summary == old.endoresement_status_summary
    &&& new.endorsement_rights_with_time == old.endorsement_rights_with_time
    &&& new.last_endorsement_operation == old.last_endorsement_operation
    &&& new.last_injected_endorsement_summary == old.last_injected_endorsement_summary
    &&& new.last_endrosement_operation_level == old.last_endrosement_operation_level
    &&& new.endorsement_table == old.endorsement_table
}

/// `new` is `old` after a new head, where the head before it was at
/// `level`, made at `timestamp`, with the hash `hash`.
pub open spec fn after_head_changed(
    old: EndrosementsState,
    level: i32,
    timestamp: Timestamp,
    hash: Seq<char>,
    application: Map<Seq<char>, BlockApplicationStatistics>,
    new: EndrosementsState,
) -> bool {
    &&& old.endorsement_rights_with_time.rights@.contains_key(level as int) ==> {
        &&& new.last_endrosement_operation_level == level
        &&& new.last_injected_endorsement_summary == endorsement_summary(
            old.injected_endorsement_stats@,
            application,
            level as int,
            hash,
            timestamp,
        )
    }
    &&& !old.endorsement_rights_with_time.rights@.contains_key(level as int) ==> {
        &&& new.last_endrosement_operation_level == old.last_endrosement_operation_level
        &&& new.last_injected_endorsement_summary == old.last_injected_endorsement_summary
    }
    &&& new.endorsement_rights == old.endorsement_rights
    &&& new.endoresement_status_summary == old.endoresement_status_summary
    &&& new.endorsement_rights_with_time == old.endorsement_rights_with_time
    &&& new.injected_endorsement_stats == old.injected_endorsement_stats
    &&& new.last_endorsement_operation == old.last_endorsement_operation
    &&& new.endorsement_table == old.endorsement_table
}

impl EndrosementsState {
    /// The state before any data arrived: an empty table with four fixed
    /// columns, no rights and an empty summary.
    pub fn default() -> (res: EndrosementsState)
        ensures
            res.endorsement_rights@.len() == 0,
            res.endoresement_status_summary@.len() == 0,
            res.endorsement_rights_with_time.rights@ == Map::<int, Option<Timestamp>>::empty(),
            res.injected_endorsement_stats@ == Map::<int, OperationStats>::empty(),
            res.last_endorsement_operation is None,
            res.last_injected_endorsement_summary == EndorsementOperationSummary::empty(),
            res.last_endrosement_operation_level == 0,
            texts(res.endorsement_table.headers@) == endorsement_headers(),
            res.endorsement_table.constraints@ == endorsement_constraints(),
            res.endorsement_table.fixed_count == 4,
            res.endorsement_table.first_rendered_index == 4,
            res.endorsement_table.content@.len() == 0,
            res.endorsement_table.rendered == 0,
            res.endorsement_table.selected == 0,
            res.endorsement_table.sorted_by == 0,
            res.endorsement_table.sort_order == SortOrder::Ascending,
            res.endorsement_table.table_state == (TableState { offset: 0, selected: None }),
    {
        let headers = strings_of(
            &[
                "Slots", "Baker", "Status", "Delta", "Receive hash", "Receive content", "Decode",
                "Precheck", "Apply", "Broadcast",
            ],
        );
        let constraints = vec![
            Constraint::Length(7), Constraint::Length(36), Constraint::Min(11), Constraint::Min(8),
            Constraint::Min(14), Constraint::Min(17), Constraint::Min(9), Constraint::Min(11),
            Constraint::Min(9), Constraint::Min(12),
        ];
        assert(texts(headers@) =~= endorsement_headers());
        assert(constraints@ =~= endorsement_constraints());
        EndrosementsState {
            endorsement_rights: Vec::new(),
            endoresement_status_summary: Vec::new(),
            endorsement_rights_with_time: EndorsementRightsWithTime::default(),
            injected_endorsement_stats: LevelMap::new(),
            last_endorsement_operation: None,
            last_injected_endorsement_summary: EndorsementOperationSummary::default(),
            last_endrosement_operation_level: 0,
            endorsement_table: ExtendedTable::new(headers, constraints, 4),
        }
    }

    /// Takes the statuses the node reported: unless there are none, the table
    /// gets one row per baker with rights, sorted as the table is, and the
    /// summary counts the slots of each state.
    pub fn statuses_received(&mut self, statuses: &Vec<(String, EndorsementStatus)>, delta_toggle: bool)
        requires
            statuses_reducible(*old(self), statuses@),
        ensures
            after_statuses(*old(self), statuses@, delta_toggle, *final(self)),
    {
        if statuses.len() == 0 {
            return;
        }
        let rows = rows_of(&self.endorsement_rights, statuses);
        proof {
            lemma_rows_total(self.endorsement_rights@, statuses@);
        }
        self.endoresement_status_summary = summarize(&rows);
        self.endorsement_table.content = rows;
        self.endorsement_table.sort_content(delta_toggle);
    }

    /// Takes the first of the operations the node reported that the baker
    /// injected, if any, as the baker's endorsement at `current_level`.
    pub fn mempool_stats_received(&mut self, reports: Vec<(String, OperationStats)>, current_level: i32)
        ensures
            after_mempool_stats(*old(self), reports@, current_level, *final(self)),
    {
        match first_injected_index(&reports) {
            Some(i) => {
                let mut reports = reports;
                let found = reports.remove(i);
                self.injected_endorsement_stats.insert(current_level, found.1);
            },
            None => {},
        }
    }

    /// At a new head: where the baker had the right to endorse the previous
    /// head's level, that level becomes the last endorsed one and the summary
    /// of the endorsement is taken from the operation injected then and the
    /// application of the previous head's block.
    pub fn head_changed(
        &mut self,
        previous_level: i32,
        previous_timestamp: Timestamp,
        previous_hash: &str,
        application_statistics: &TextMap<BlockApplicationStatistics>,
    )
        requires
            old(self).endorsement_rights_with_time.rights@.contains_key(previous_level as int) ==> {
                &&& previous_timestamp.valid()
                &&& endorsement_summary_fits(
                    old(self).injected_endorsement_stats@,
                    application_statistics@,
                    previous_level as int,
                    previous_hash@,
                )
            },
        ensures
            after_head_changed(*old(self), previous_level, previous_timestamp, previous_hash@, application_statistics@, *final(self)),
    {
        match self.endorsement_rights_with_time.next_endorsing_level(previous_level) {
            Some(endorsing_level) => {
                if endorsing_level == previous_level {
                    self.last_endrosement_operation_level = endorsing_level;
                    let summary = self.summary_at(previous_level, previous_timestamp, previous_hash, application_statistics);
                    self.last_injected_endorsement_summary = summary;
                }
            },
            None => {},
        }
    }
}

impl EndrosementsState {
    /// The summary of the baker's endorsement at `level`, of the block with
    /// `hash` made at `timestamp`.
    fn summary_at(
        &self,
        level: i32,
        timestamp: Timestamp,
        hash: &str,
        application_statistics: &TextMap<BlockApplicationStatistics>,
    ) -> (res: EndorsementOperationSummary)
        requires
            timestamp.valid(),
            endorsement_summary_fits(self.injected_endorsement_stats@, application_statistics@, level as int, hash@),
        ensures
            res == endorsement_summary(self.injected_endorsement_stats@, application_statistics@, level as int, hash@, timestamp),
    {
        let block_stats = application_statistics.get(hash);
        match self.injected_endorsement_stats.get(level) {
            Some(op_stats) => EndorsementOperationSummary::new(timestamp, op_stats, block_stats),
            None => {
                let blank = OperationStats::default();
                proof {
                    assert(blank.nodes@ =~= Seq::<(String, crate::operations::OperationNodeStats)>::empty());
                }
                EndorsementOperationSummary::new(timestamp, &blank, block_stats)
            },
        }
    }

    /// What the endorsing panel shows for the head at `level`, made at
    /// `timestamp` with the hash `hash`: where the baker has a right at the
    /// head, the head's level and the summary of its endorsement, once the
    /// node reported how the block was applied (empty before, and where the
    /// steps cannot be measured); where the next right comes later, the last
    /// endorsed level and its summary; nothing where no right is left.
    pub fn endorsing_panel(
        &self,
        level: i32,
        timestamp: Timestamp,
        hash: &str,
        application_statistics: &TextMap<BlockApplicationStatistics>,
    ) -> (res: Option<(i32, EndorsementOperationSummary)>)
        ensures
            res == endorsing_panel_of(*self, level, timestamp, hash@, application_statistics@),
    {
        match self.endorsement_rights_with_time.next_endorsing_level(level) {
            Some(next) => {
                if next == level {
                    let summary = if application_statistics.get(hash).is_some() && timestamp.is_valid()
                        && check_endorsement_summary(&self.injected_endorsement_stats, application_statistics, level, hash) {
                        self.summary_at(level, timestamp, hash, application_statistics)
                    } else {
                        EndorsementOperationSummary::default()
                    };
                    Some((level, summary))
                } else {
                    Some((self.last_endrosement_operation_level, self.last_injected_endorsement_summary))
                }
            },
            None => None,
        }
    }
}

/// What the endorsing panel shows: see `EndrosementsState::endorsing_panel`.
pub open spec fn endorsing_panel_of(
    s: EndrosementsState,
    level: i32,
    timestamp: Timestamp,
    hash: Seq<char>,
    application: Map<Seq<char>, BlockApplicationStatistics>,
) -> Option<(i32, EndorsementOperationSummary)> {
    let rights = s.endorsement_rights_with_time.rights@;
    if rights.contains_key(level as int) {
        Some((
            level,
            if application.contains_key(hash) && timestamp.valid()
                && endorsement_summary_fits(s.injected_endorsement_stats@, application, level as int, hash) {
                endorsement_summary(s.injected_endorsement_stats@, application, level as int, hash, timestamp)
            } else {
                EndorsementOperationSummary::empty()
            },
        ))
    } else if no_next_level(rights, level as int) {
        None
    } else {
        Some((s.last_endrosement_operation_level, s.last_injected_endorsement_summary))
    }
}

/// `i` is the first operation that the baker injected.
pub open spec fn is_first_injected(stats: Seq<(String, OperationStats)>, i: int) -> bool {
    &&& 0 <= i < stats.len()
    &&& stats[i].1.injected_timestamp is Some
    &&& forall|j: int| 0 <= j < i ==> (#[trigger] stats[j]).1.injected_timestamp is None
}

/// The position of the first operation that the baker injected.
pub open spec fn first_injected(stats: Seq<(String, OperationStats)>) -> Option<int> {
    if exists|i: int| is_first_injected(stats, i) {
        Some(choose|i: int| is_first_injected(stats, i))
    } else {
        None
    }
}

/// The position of the first operation that the baker injected.
pub fn first_injected_index(reports: &Vec<(String, OperationStats)>) -> (res: Option<usize>)
    ensures
        match res {
            Some(i) => i < reports@.len() && first_injected(reports@) == Some(i as int),
            None => first_injected(reports@) is None,
        },
{
    let mut i: usize = 0;
    while i < reports.len()
        invariant
            i <= reports@.len(),
            forall|j: int| 0 <= j < i ==> (#[trigger] reports@[j]).1.injected_timestamp is None,
        decreases reports@.len() - i,
    {
        if reports[i].1.is_injected() {
            proof {
                lemma_first_injected(reports@, i as int);
            }
            return Some(i);
        }
        i = i + 1;
    }
    proof {
        lemma_no_injected(reports@);
    }
    None
}

proof fn lemma_first_injected(stats: Seq<(String, OperationStats)>, i: int)
    requires
        is_first_injected(stats, i),
    ensures
        first_injected(stats) == Some(i),
{
    let c = choose|k: int| is_first_injected(stats, k);
    assert(is_first_injected(stats, c));
    if c < i {
        assert(stats[c].1.injected_timestamp is None);
    } else if c > i {
        assert(stats[i].1.injected_timestamp is None);
    }
}

proof fn lemma_no_injected(stats: Seq<(String, OperationStats)>)
    requires
        forall|j: int| 0 <= j < stats.len() ==> (#[trigger] stats[j]).1.injected_timestamp is None,
    ensures
        first_injected(stats) is None,
{
    assert forall|i: int| !is_first_injected(stats, i) by {
        if 0 <= i < stats.len() {
            assert(stats[i].1.injected_timestamp is None);
        }
    }
}

/// Ask for the endorsing rights of the block `block` at `level`.
#[derive(Debug, Clone)]
pub struct EndorsementsRightsGetAction {
    pub block: String,
    pub level: i32,
}

/// The node reported the slots of each baker, in the order of the bakers.
#[derive(Debug, Clone)]
pub struct EndorsementsRightsReceivedAction {
    pub endorsement_rights: Vec<(String, Vec<u32>)>,
}

/// Ask for the statuses of the endorsements.
#[derive(Debug, Clone)]
pub struct EndorsementsStatusesGetAction {}

/// The node reported the statuses of the endorsements, by operation hash.
#[derive(Debug, Clone)]
pub struct EndorsementsStatusesReceivedAction {
    pub endorsements_statuses: Vec<(String, EndorsementStatus)>,
}

/// Ask for the baker's endorsing rights with their times.
#[derive(Debug, Clone)]
pub struct EndorsementsRightsWithTimeGetAction {}

/// The node reported the baker's endorsing rights with their times.
#[derive(Debug, Clone)]
pub struct EndorsementsRightsWithTimeReceivedAction {
    pub rights: Vec<EndorsementRightsWithTimePerLevel>,
}

/// Ask for the statistics of the endorsements in the mempool.
#[derive(Debug, Clone)]
pub struct MempoolEndorsementStatsGetAction {}

/// The node reported the statistics of the endorsements in its mempool, by
/// operation hash.
#[derive(Debug, Clone)]
pub struct MempoolEndorsementStatsReceivedAction {
    pub stats: Vec<(String, OperationStats)>,
}

} // verus!
