use vstd::prelude::*;

use crate::endorsements::state_from_text;
use crate::extensions::CellContent;
use crate::text::{str_eq, usize_to_string};

verus! {

/// What a node reported of one endorsement, in the first form of the
/// endorsement screen: the times are nanoseconds.
#[derive(Debug, Clone)]
pub struct EndorsementStatus {
    pub block_timestamp: u64,
    pub decoded_time: Option<u64>,
    pub received_time: Option<u64>,
    pub applied_time: Option<u64>,
    pub prechecked_time: Option<u64>,
    pub broadcast_time: Option<u64>,
    pub slot: u32,
    pub state: String,
}

/// How far an endorsement got, as the first endorsement screen knows it.
#[derive(Debug, Clone, Copy, PartialEq, Eq, Structural)]
pub enum EndorsementState {
    Missing,
    Broadcast,
    Applied,
    Prechecked,
    Decoded,
    Received,
}

/// The error of a name that is no state.
#[derive(Debug, Clone, Copy, PartialEq, Eq, Structural)]
pub struct InvalidVariantError {}

/// The state of the node's lower-case name `s`, missing where `s` names none.
pub open spec fn state_or_missing(s: Seq<char>) -> EndorsementState {
    match state_from_text(s) {
        Some(crate::endorsements::EndorsementState::Missing) => EndorsementState::Missing,
        Some(crate::endorsements::EndorsementState::Broadcast) => EndorsementState::Broadcast,
        Some(crate::endorsements::EndorsementState::Applied) => EndorsementState::Applied,
        Some(crate::endorsements::EndorsementState::Prechecked) => EndorsementState::Prechecked,
        Some(crate::endorsements::EndorsementState::Decoded) => EndorsementState::Decoded,
        Some(crate::endorsements::EndorsementState::Received) => EndorsementState::Received,
        None => EndorsementState::Missing,
    }
}

/// The name the first endorsement table shows for a state: the lower-case
/// name, with an applied endorsement shown as broadcast.
pub open spec fn state_text(s: EndorsementState) -> Seq<char> {
    match s {
        EndorsementState::Missing => "missing"@,
        EndorsementState::Broadcast => "broadcast"@,
        EndorsementState::Applied => "broadcast"@,
        EndorsementState::Prechecked => "prechecked"@,
        EndorsementState::Decoded => "decoded"@,
        EndorsementState::Received => "received"@,
    }
}

impl EndorsementState {
    /// The state named `s` in lower case.
    pub fn from_str(s: &str) -> (res: Result<EndorsementState, InvalidVariantError>)
        ensures
            match res {
                Ok(st) => state_from_text(s@) is Some && st == state_or_missing(s@),
                Err(_) => state_from_text(s@) is None,
            },
    {
        if str_eq(s, "missing") {
            Ok(EndorsementState::Missing)
        } else if str_eq(s, "broadcast") {
            Ok(EndorsementState::Broadcast)
        } else if str_eq(s, "applied") {
            Ok(EndorsementState::Applied)
        } else if str_eq(s, "prechecked") {
            Ok(EndorsementState::Prechecked)
        } else if str_eq(s, "decoded") {
            Ok(EndorsementState::Decoded)
        } else if str_eq(s, "received") {
            Ok(EndorsementState::Received)
        } else {
            Err(InvalidVariantError {})
        }
    }

    /// The state before anything was seen.
    pub fn default() -> (res: EndorsementState)
        ensures
            res == EndorsementState::Missing,
    {
        EndorsementState::Missing
    }

    /// The name the table shows for the state.
    pub fn to_string(&self) -> (res: String)
        ensures
            res@ == state_text(*self),
    {
        match self {
            EndorsementState::Missing => String::from_str("missing"),
            EndorsementState::Broadcast => String::from_str("broadcast"),
            EndorsementState::Applied => String::from_str("broadcast"),
            EndorsementState::Prechecked => String::from_str("prechecked"),
            EndorsementState::Decoded => String::from_str("decoded"),
            EndorsementState::Received => String::from_str("received"),
        }
    }
}

/// A row of the first endorsement table, where a missing time is stood for
/// by a number that sorts it last (or first).
#[derive(Debug, Clone)]
pub struct EndorsementStatusSortable {
    pub delta: u64,
    pub decoded_time: u64,
    pub received_time: u64,
    pub applied_time: u64,
    pub prechecked_time: u64,
    pub broadcast_time: u64,
    pub slot: u32,
    pub state: EndorsementState,
    pub baker: String,
    pub slot_count: usize,
}

/// A time, or `missing` in its place.
pub open spec fn or_else(o: Option<u64>, missing: u64) -> u64 {
    match o {
        Some(t) => t,
        None => missing,
    }
}

fn or_else_exec(o: Option<u64>, missing: u64) -> (res: u64)
    ensures
        res == or_else(o, missing),
{
    match o {
        Some(t) => t,
        None => missing,
    }
}

impl EndorsementStatus {
    /// The broadcast does not come before the receipt, where both are known.
    pub open spec fn delta_fits(&self) -> bool {
        match (self.broadcast_time, self.received_time) {
            (Some(b), Some(r)) => r <= b,
            _ => true,
        }
    }

    /// The row of `baker` with `slot_count` slots, a missing time stood for
    /// by `missing`.
    pub open spec fn sortable_with(&self, baker: String, slot_count: usize, missing: u64) -> EndorsementStatusSortable {
        EndorsementStatusSortable {
            delta: match (self.broadcast_time, self.received_time) {
                (Some(b), Some(r)) => (b - r) as u64,
                _ => missing,
            },
            decoded_time: or_else(self.decoded_time, missing),
            received_time: or_else(self.received_time, missing),
            applied_time: or_else(self.applied_time, missing),
            prechecked_time: or_else(self.prechecked_time, missing),
            broadcast_time: or_else(self.broadcast_time, missing),
            slot: self.slot,
            state: state_or_missing(self.state@),
            baker,
            slot_count,
        }
    }

    fn to_sortable_with(&self, baker: String, slot_count: usize, missing: u64) -> (res: EndorsementStatusSortable)
        requires
            self.delta_fits(),
        ensures
            res == self.sortable_with(baker, slot_count, missing),
    {
        let delta = match (self.broadcast_time, self.received_time) {
            (Some(broadcast), Some(received)) => broadcast - received,
            _ => missing,
        };
        let state = match EndorsementState::from_str(self.state.as_str()) {
            Ok(st) => st,
            Err(_) => EndorsementState::default(),
        };
        EndorsementStatusSortable {
            delta,
            decoded_time: or_else_exec(self.decoded_time, missing),
            received_time: or_else_exec(self.received_time, missing),
            applied_time: or_else_exec(self.applied_time, missing),
            prechecked_time: or_else_exec(self.prechecked_time, missing),
            broadcast_time: or_else_exec(self.broadcast_time, missing),
            slot: self.slot,
            state,
            baker,
            slot_count,
        }
    }

    /// The row for sorting downwards: a missing time counts as zero.
    pub fn to_sortable_descending(&self, baker: String, slot_count: usize) -> (res: EndorsementStatusSortable)
        requires
            self.delta_fits(),
        ensures
            res == self.sortable_with(baker, slot_count, 0),
    {
        self.to_sortable_with(baker, slot_count, 0)
    }

    /// The row for sorting upwards: a missing time counts as the largest.
    pub fn to_sortable_ascending(&self, baker: String, slot_count: usize) -> (res: EndorsementStatusSortable)
        requires
            self.delta_fits(),
        ensures
            res == self.sortable_with(baker, slot_count, u64::MAX),
    {
        self.to_sortable_with(baker, slot_count, u64::MAX)
    }
}

/// A first-form row keeps each known time of the status and puts the
/// largest time in place of a missing one when sorting upwards, so that it
/// sorts after every known time, and zero when sorting downwards, so that it
/// sorts after them too; its delta is how long after the receipt came the
/// broadcast, where both are known; its state is the one the node names,
/// missing where the name is none.
pub proof fn lemma_first_form_rows_sort_missing_times_last(status: EndorsementStatus, baker: String, slot_count: usize)
    requires
        status.delta_fits(),
    ensures
        ({
            let up = status.sortable_with(baker, slot_count, u64::MAX);
            let down = status.sortable_with(baker, slot_count, 0);
            &&& forall|t: u64| status.received_time == Some(t) ==> up.received_time == t && down.received_time == t
            &&& forall|t: u64| status.decoded_time == Some(t) ==> up.decoded_time == t && down.decoded_time == t
            &&& forall|t: u64| status.prechecked_time == Some(t) ==> up.prechecked_time == t && down.prechecked_time == t
            &&& forall|t: u64| status.applied_time == Some(t) ==> up.applied_time == t && down.applied_time == t
            &&& forall|t: u64| status.broadcast_time == Some(t) ==> up.broadcast_time == t && down.broadcast_time == t
            &&& status.received_time is None ==> up.received_time == u64::MAX && down.received_time == 0
            &&& status.decoded_time is None ==> up.decoded_time == u64::MAX && down.decoded_time == 0
            &&& status.prechecked_time is None ==> up.prechecked_time == u64::MAX && down.prechecked_time == 0
            &&& status.applied_time is None ==> up.applied_time == u64::MAX && down.applied_time == 0
            &&& status.broadcast_time is None ==> up.broadcast_time == u64::MAX && down.broadcast_time == 0
            &&& forall|b: u64, r: u64| status.broadcast_time == Some(b) && status.received_time == Some(r)
                ==> up.delta + r == b && down.delta + r == b
            &&& up.slot == status.slot && up.baker == baker && up.slot_count == slot_count
            &&& (state_from_text(status.state@) is None ==> up.state == EndorsementState::Missing)
            &&& up.state == down.state
        }),
{
}

impl EndorsementStatusSortable {
    /// The row of `baker` with `slot_count` slots, before anything is known:
    /// every time zero and the state missing.
    pub fn new(baker: String, slot_count: usize) -> (res: EndorsementStatusSortable)
        ensures
            res == (EndorsementStatusSortable {
                delta: 0,
                decoded_time: 0,
                received_time: 0,
                applied_time: 0,
                prechecked_time: 0,
                broadcast_time: 0,
                slot: 0,
                state: EndorsementState::Missing,
                baker,
                slot_count,
            }),
    {
        EndorsementStatusSortable {
            delta: 0,
            decoded_time: 0,
            received_time: 0,
            applied_time: 0,
            prechecked_time: 0,
            broadcast_time: 0,
            slot: 0,
            state: EndorsementState::Missing,
            baker,
            slot_count,
        }
    }

    /// Both ends of the delta are known and the broadcast does not come
    /// before the receipt.
    pub open spec fn shown_delta_fits(&self) -> bool {
        (self.broadcast_time != 0 && self.received_time != 0 && self.broadcast_time != u64::MAX
            && self.received_time != u64::MAX) ==> self.received_time <= self.broadcast_time
    }

    /// The cells of the row: slots, baker and state as text, then the delta
    /// and the times of receipt, decoding, precheck, application and
    /// broadcast, each a dash where it is not known.
    pub fn construct_tui_table_data(&self) -> (res: Vec<CellContent>)
        requires
            self.shown_delta_fits(),
        ensures
            res@.len() == 9,
            res@[0]@ == crate::extensions::CellText::Text(crate::text::nat_to_decimal(self.slot_count as nat)),
            res@[1]@ == crate::extensions::CellText::Text(self.baker@),
            res@[2]@ == crate::extensions::CellText::Text(state_text(self.state)),
            res@[3]@ == (if self.broadcast_time != 0 && self.received_time != 0 && self.broadcast_time != u64::MAX
                && self.received_time != u64::MAX {
                crate::extensions::CellText::Duration(self.broadcast_time - self.received_time)
            } else {
                crate::extensions::CellText::Text(seq!['-'])
            }),
            res@[4]@ == legacy_cell_text(self.received_time),
            res@[5]@ == legacy_cell_text(self.decoded_time),
            res@[6]@ == legacy_cell_text(self.prechecked_time),
            res@[7]@ == legacy_cell_text(self.applied_time),
            res@[8]@ == legacy_cell_text(self.broadcast_time),
    {
        let mut v: Vec<CellContent> = Vec::new();
        v.push(CellContent::Text(usize_to_string(self.slot_count)));
        v.push(CellContent::Text(self.baker.clone()));
        v.push(CellContent::Text(self.state.to_string()));
        if self.broadcast_time != 0 && self.received_time != 0 && self.broadcast_time != u64::MAX
            && self.received_time != u64::MAX {
            v.push(CellContent::Duration((self.broadcast_time - self.received_time) as i128));
        } else {
            v.push(dash());
        }
        v.push(legacy_cell(self.received_time));
        v.push(legacy_cell(self.decoded_time));
        v.push(legacy_cell(self.prechecked_time));
        v.push(legacy_cell(self.applied_time));
        v.push(legacy_cell(self.broadcast_time));
        v
    }
}

/// The text of a time cell of the first endorsement table.
pub open spec fn legacy_cell_text(t: u64) -> crate::extensions::CellText {
    if t > 0 && t != u64::MAX {
        crate::extensions::CellText::Duration(t as int)
    } else {
        crate::extensions::CellText::Text(seq!['-'])
    }
}

fn dash() -> (res: CellContent)
    ensures
        res@ == crate::extensions::CellText::Text(seq!['-']),
{
    let d = String::from_str("-");
    proof {
        reveal_strlit("-");
        assert("-"@ =~= seq!['-']);
    }
    CellContent::Text(d)
}

fn legacy_cell(t: u64) -> (res: CellContent)
    ensures
        res@ == legacy_cell_text(t),
{
    if t > 0 && t != u64::MAX {
        CellContent::Duration(t as i128)
    } else {
        dash()
    }
}

/// A list with one item in focus, whose focus can be moved round.
pub trait RollingList: Sized {
    /// The item in focus.
    spec fn focus(&self) -> int;

    /// The number of items.
    spec fn item_count(&self) -> int;

    fn get_count(&self) -> (n: usize)
        ensures
            n == self.item_count(),
    ;

    fn get_in_focus(&self) -> (i: usize)
        ensures
            i == self.focus(),
    ;

    fn set_in_focus(&mut self, i: usize)
        ensures
            final(self).focus() == i,
            final(self).item_count() == old(self).item_count(),
    ;

    /// Moves the focus to the next item, from the last back to the first; a
    /// list of at most one item keeps its focus.
    fn next(&mut self)
        requires
            old(self).item_count() > 1 ==> old(self).focus() < usize::MAX,
        ensures
            final(self).focus() == (if old(self).item_count() <= 1 {
                old(self).focus()
            } else {
                (old(self).focus() + 1) % old(self).item_count()
            }),
            final(self).item_count() == old(self).item_count(),
    {
        let count = self.get_count();
        if count <= 1 {
            return;
        }
        let in_focus = self.get_in_focus();
        self.set_in_focus((in_focus + 1) % count);
    }

    /// Moves the focus to the previous item, from the first to the last; a
    /// list of at most one item keeps its focus.
    fn previous(&mut self)
        ensures
            final(self).focus() == (if old(self).item_count() <= 1 {
                old(self).focus()
            } else if old(self).focus() > 0 {
                old(self).focus() - 1
            } else {
                old(self).item_count() - 1
            }),
            final(self).item_count() == old(self).item_count(),
    {
        let count = self.get_count();
        if count <= 1 {
            return;
        }
        let in_focus = self.get_in_focus();
        if in_focus > 0 {
            self.set_in_focus(in_focus - 1);
        } else {
            self.set_in_focus(count - 1);
        }
    }
}

/// The widgets of a screen, one in focus.
#[derive(Debug, Clone)]
pub struct WidgetState {
    pub widgets: Vec<String>,
    pub in_focus: usize,
}

impl WidgetState {
    /// The widgets, the first in focus.
    pub fn new(widgets: Vec<String>) -> (res: WidgetState)
        ensures
            res.widgets == widgets,
            res.in_focus == 0,
    {
        WidgetState { widgets, in_focus: 0 }
    }

    pub fn in_focus(&self) -> (res: usize)
        ensures
            res == self.in_focus,
    {
        self.in_focus
    }
}

impl RollingList for WidgetState {
    open spec fn focus(&self) -> int {
        self.in_focus as int
    }

    open spec fn item_count(&self) -> int {
        self.widgets@.len() as int
    }

    fn get_count(&self) -> (n: usize) {
        self.widgets.len()
    }

    fn get_in_focus(&self) -> (i: usize) {
        self.in_focus
    }

    fn set_in_focus(&mut self, i: usize) {
        self.in_focus = i;
    }
}

/// A screen: its title and its widgets.
#[derive(Debug, Clone)]
pub struct Page {
    pub title: String,
    pub widgets: WidgetState,
}

impl Page {
    pub fn new(title: String, widgets: WidgetState) -> (res: Page)
        ensures
            res.title == title,
            res.widgets == widgets,
    {
        Page { title, widgets }
    }
}

/// The screens, one in focus.
#[derive(Debug, Clone)]
pub struct PageState {
    pub pages: Vec<Page>,
    pub in_focus: usize,
}

impl PageState {
    /// The synchronization screen, with its periods and peers, and the
    /// mempool screen; the first in focus.
    pub fn default() -> (res: PageState)
        ensures
            res.pages@.len() == 2,
            res.pages@[0].title@ == "Synchronization"@,
            res.pages@[0].widgets.widgets@.len() == 2,
            res.pages@[1].title@ == "Mempool"@,
            res.pages@[1].widgets.widgets@.len() == 1,
            res.in_focus == 0,
    {
        let sync = Page::new(
            String::from_str("Synchronization"),
            WidgetState::new(vec![String::from_str("Periods"), String::from_str("Connected peers")]),
        );
        let mempool = Page::new(String::from_str("Mempool"), WidgetState::new(vec![String::from_str("TODOWidget")]));
        PageState { pages: vec![sync, mempool], in_focus: 0 }
    }

    pub fn in_focus(&self) -> (res: usize)
        ensures
            res == self.in_focus,
    {
        self.in_focus
    }
}

impl RollingList for PageState {
    open spec fn focus(&self) -> int {
        self.in_focus as int
    }

    open spec fn item_count(&self) -> int {
        self.pages@.len() as int
    }

    fn get_count(&self) -> (n: usize) {
        self.pages.len()
    }

    fn get_in_focus(&self) -> (i: usize) {
        self.in_focus
    }

    fn set_in_focus(&mut self, i: usize) {
        self.in_focus = i;
    }
}

/// Moving the focus of a list to the next item and back returns to the item,
/// and the focus stays within the list.
pub proof fn lemma_rolling_next_previous(count: int, focus: int)
    requires
        0 <= focus < count,
        count > 1,
    ensures
        0 <= (focus + 1) % count < count,
        ({
            let n = (focus + 1) % count;
            (if n > 0 { n - 1 } else { count - 1 }) == focus
        }),
{
    if focus + 1 < count {
        assert((focus + 1) % count == focus + 1) by (nonlinear_arith)
            requires
                0 <= focus + 1 < count,
        ;
    } else {
        assert((focus + 1) % count == 0) by (nonlinear_arith)
            requires
                focus + 1 == count,
                count > 1,
        ;
    }
}

} // verus!
