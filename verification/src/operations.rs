use vstd::prelude::*;

use crate::extensions::extended_table::{Constraint, ExtendedTable, TableState};
use crate::extensions::sorting::{opt_key, FocusKey, SortKey, SortKeyView};
use crate::extensions::{
    get_time_style, missing_cell, missing_value, plain_time, plain_time_cell, row_view, shown_time,
    styled_time, styled_time_cell, CellContent, CellStyle, CellText, Color, SortOrder, TuiTableData,
};
use crate::extensions::sorting::{ordered_items, text_le};
use crate::terminal_ui::{next_index, next_item, opt_index, previous_index, previous_item};
use crate::text::{digit_char, nat_to_decimal, two_digits, usize_to_string};
use crate::text_map::{check_keys_ascending, keys_ascending, TextMap};

verus! {

/// The kind of an operation in the mempool.
#[derive(Debug, Clone, Copy, PartialEq, Eq, Structural)]
pub enum OperationKind {
    Endorsement,
    SeedNonceRevelation,
    DoubleEndorsement,
    DoubleBaking,
    Activation,
    Proposals,
    Ballot,
    EndorsementWithSlot,
    FailingNoop,
    Reveal,
    Transaction,
    Origination,
    Delegation,
    RegisterConstant,
    Unknown,
    Default,
}

/// The position of a kind in the order of kinds (their order of declaration).
pub open spec fn kind_rank(k: OperationKind) -> int {
    match k {
        OperationKind::Endorsement => 0,
        OperationKind::SeedNonceRevelation => 1,
        OperationKind::DoubleEndorsement => 2,
        OperationKind::DoubleBaking => 3,
        OperationKind::Activation => 4,
        OperationKind::Proposals => 5,
        OperationKind::Ballot => 6,
        OperationKind::EndorsementWithSlot => 7,
        OperationKind::FailingNoop => 8,
        OperationKind::Reveal => 9,
        OperationKind::Transaction => 10,
        OperationKind::Origination => 11,
        OperationKind::Delegation => 12,
        OperationKind::RegisterConstant => 13,
        OperationKind::Unknown => 14,
        OperationKind::Default => 15,
    }
}

/// The name of a kind, as it is shown.
pub open spec fn kind_name(k: OperationKind) -> Seq<char> {
    match k {
        OperationKind::Endorsement => "Endorsement"@,
        OperationKind::SeedNonceRevelation => "SeedNonceRevelation"@,
        OperationKind::DoubleEndorsement => "DoubleEndorsement"@,
        OperationKind::DoubleBaking => "DoubleBaking"@,
        OperationKind::Activation => "Activation"@,
        OperationKind::Proposals => "Proposals"@,
        OperationKind::Ballot => "Ballot"@,
        OperationKind::EndorsementWithSlot => "EndorsementWithSlot"@,
        OperationKind::FailingNoop => "FailingNoop"@,
        OperationKind::Reveal => "Reveal"@,
        OperationKind::Transaction => "Transaction"@,
        OperationKind::Origination => "Origination"@,
        OperationKind::Delegation => "Delegation"@,
        OperationKind::RegisterConstant => "RegisterConstant"@,
        OperationKind::Unknown => "Unknown"@,
        OperationKind::Default => "Default"@,
    }
}

impl OperationKind {
    pub fn rank(&self) -> (r: u8)
        ensures
            r as int == kind_rank(*self),
    {
        match self {
            OperationKind::Endorsement => 0,
            OperationKind::SeedNonceRevelation => 1,
            OperationKind::DoubleEndorsement => 2,
            OperationKind::DoubleBaking => 3,
            OperationKind::Activation => 4,
            OperationKind::Proposals => 5,
            OperationKind::Ballot => 6,
            OperationKind::EndorsementWithSlot => 7,
            OperationKind::FailingNoop => 8,
            OperationKind::Reveal => 9,
            OperationKind::Transaction => 10,
            OperationKind::Origination => 11,
            OperationKind::Delegation => 12,
            OperationKind::RegisterConstant => 13,
            OperationKind::Unknown => 14,
            OperationKind::Default => 15,
        }
    }

    /// The name of the kind.
    pub fn to_string(&self) -> (res: String)
        ensures
            res@ == kind_name(*self),
    {
        match self {
            OperationKind::Endorsement => String::from_str("Endorsement"),
            OperationKind::SeedNonceRevelation => String::from_str("SeedNonceRevelation"),
            OperationKind::DoubleEndorsement => String::from_str("DoubleEndorsement"),
            OperationKind::DoubleBaking => String::from_str("DoubleBaking"),
            OperationKind::Activation => String::from_str("Activation"),
            OperationKind::Proposals => String::from_str("Proposals"),
            OperationKind::Ballot => String::from_str("Ballot"),
            OperationKind::EndorsementWithSlot => String::from_str("EndorsementWithSlot"),
            OperationKind::FailingNoop => String::from_str("FailingNoop"),
            OperationKind::Reveal => String::from_str("Reveal"),
            OperationKind::Transaction => String::from_str("Transaction"),
            OperationKind::Origination => String::from_str("Origination"),
            OperationKind::Delegation => String::from_str("Delegation"),
            OperationKind::RegisterConstant => String::from_str("RegisterConstant"),
            OperationKind::Unknown => String::from_str("Unknown"),
            OperationKind::Default => String::from_str("Default"),
        }
    }
}

/// The outcome of validating an operation.
#[derive(Debug, Clone, Copy, PartialEq, Eq, Structural)]
pub enum OperationValidationResult {
    Applied,
    Refused,
    BranchRefused,
    BranchDelayed,
    Prechecked,
    PrecheckRefused,
    Prevalidate,
    Default,
}

/// When a node saw an operation, relative to the first time it was seen.
#[derive(Debug, Clone, Copy, PartialEq, Eq, Structural)]
pub struct OperationNodeCurrentHeadStats {
    /// Latency from first time we have seen that operation.
    pub latency: i64,
    pub block_level: i32,
    pub block_timestamp: i64,
}

/// What one node reported about an operation.
#[derive(Debug, Clone)]
pub struct OperationNodeStats {
    pub received: Vec<OperationNodeCurrentHeadStats>,
    pub sent: Vec<OperationNodeCurrentHeadStats>,
    pub content_requested: Vec<i64>,
    pub content_received: Vec<i64>,
    pub content_requested_remote: Vec<i64>,
    pub content_sent: Vec<i64>,
}

/// One validation of an operation.
#[derive(Debug, Clone, Copy, PartialEq, Eq, Structural)]
pub struct OperationValidationStats {
    pub started: Option<i64>,
    pub finished: Option<i64>,
    pub preapply_started: Option<i64>,
    pub preapply_ended: Option<i64>,
    pub current_head_level: Option<i32>,
    pub result: Option<OperationValidationResult>,
}

/// The reports of the nodes on one operation, keyed by node id: the ids
/// ascend, each once.
#[derive(Debug)]
pub struct NodeReports {
    entries: Vec<(String, OperationNodeStats)>,
}

impl View for NodeReports {
    type V = Seq<(String, OperationNodeStats)>;

    closed spec fn view(&self) -> Seq<(String, OperationNodeStats)> {
        self.entries@
    }
}

impl NodeReports {
    #[verifier::type_invariant]
    spec fn ids_ascend(&self) -> bool {
        keys_ascending(self.entries@)
    }

    /// No reports.
    pub fn new() -> (res: NodeReports)
        ensures
            res@ == Seq::<(String, OperationNodeStats)>::empty(),
    {
        NodeReports { entries: Vec::new() }
    }

    /// The reports `entries`, where their node ids ascend, each once;
    /// `None` where they do not.
    pub fn from_entries(entries: Vec<(String, OperationNodeStats)>) -> (res: Option<NodeReports>)
        ensures
            res is Some <==> keys_ascending(entries@),
            res matches Some(r) ==> r@ == entries@,
    {
        if check_keys_ascending(&entries) {
            Some(NodeReports { entries })
        } else {
            None
        }
    }

    /// The reports in the order of their node ids, which ascend, each once.
    pub fn entries(&self) -> (res: &Vec<(String, OperationNodeStats)>)
        ensures
            res@ == self@,
            keys_ascending(self@),
    {
        proof {
            use_type_invariant(self);
        }
        &self.entries
    }

    /// The number of reports.
    pub fn len(&self) -> (res: usize)
        ensures
            res == self@.len(),
    {
        self.entries.len()
    }
}

impl Clone for NodeReports {
    /// The same reports under the same node ids.
    fn clone(&self) -> (res: NodeReports)
        ensures
            res@.len() == self@.len(),
            forall|i: int| 0 <= i < self@.len() ==> (#[trigger] res@[i]).0@ == self@[i].0@,
    {
        proof {
            use_type_invariant(self);
        }
        let mut entries: Vec<(String, OperationNodeStats)> = Vec::new();
        let mut i: usize = 0;
        while i < self.entries.len()
            invariant
                i <= self.entries@.len(),
                keys_ascending(self.entries@),
                entries@.len() == i,
                forall|j: int| 0 <= j < i ==> (#[trigger] entries@[j]).0@ == self.entries@[j].0@,
            decreases self.entries@.len() - i,
        {
            let e = &self.entries[i];
            entries.push((e.0.clone(), e.1.clone()));
            i = i + 1;
        }
        NodeReports { entries }
    }
}

/// The statistics of one operation. `nodes` holds the node reports in the
/// order of their node ids, each id once.
#[derive(Debug, Clone)]
pub struct OperationStats {
    pub kind: Option<OperationKind>,
    /// Minimum time when we saw this operation. Latencies are measured
    /// from this point.
    pub min_time: Option<u64>,
    pub first_block_timestamp: Option<u64>,
    pub validation_started: Option<i64>,
    /// (time_validation_finished, validation_result, preapply started, preapply ended)
    pub validation_result: Option<(i64, OperationValidationResult, Option<i64>, Option<i64>)>,
    pub validations: Vec<OperationValidationStats>,
    pub nodes: NodeReports,
    pub injected_timestamp: Option<u64>,
}

/// The smaller of two optional values; an absent value is ignored.
pub open spec fn opt_min(a: Option<i64>, b: Option<i64>) -> Option<i64> {
    match a {
        None => b,
        Some(x) => match b {
            None => Some(x),
            Some(y) => if y < x {
                Some(y)
            } else {
                Some(x)
            },
        },
    }
}

/// The minimum of a sequence, if it is not empty.
pub open spec fn min_of(s: Seq<i64>) -> Option<i64>
    decreases s.len(),
{
    if s.len() == 0 {
        None
    } else {
        opt_min(min_of(s.drop_last()), Some(s.last()))
    }
}

/// The latencies of a list of sightings.
pub open spec fn latencies(s: Seq<OperationNodeCurrentHeadStats>) -> Seq<i64> {
    s.map_values(|v: OperationNodeCurrentHeadStats| v.latency)
}

/// Which list of times of a node report is meant.
pub enum NodeTimes {
    Received,
    Sent,
    ContentReceived,
    ContentRequestedRemote,
    ContentSent,
}

/// The times of one kind in a node report.
pub open spec fn node_times(n: OperationNodeStats, which: NodeTimes) -> Seq<i64> {
    match which {
        NodeTimes::Received => latencies(n.received@),
        NodeTimes::Sent => latencies(n.sent@),
        NodeTimes::ContentReceived => n.content_received@,
        NodeTimes::ContentRequestedRemote => n.content_requested_remote@,
        NodeTimes::ContentSent => n.content_sent@,
    }
}

/// The earliest time of one kind over all node reports: the minimum of the
/// per-node minima.
pub open spec fn earliest(nodes: Seq<(String, OperationNodeStats)>, which: NodeTimes) -> Option<i64>
    decreases nodes.len(),
{
    if nodes.len() == 0 {
        None
    } else {
        opt_min(earliest(nodes.drop_last(), which), min_of(node_times(nodes.last().1, which)))
    }
}

/// `a - b` when both are present.
pub open spec fn opt_sub(a: Option<i64>, b: Option<i64>) -> Option<i64> {
    match a {
        Some(x) => match b {
            Some(y) => Some((x - y) as i64),
            None => None,
        },
        None => None,
    }
}

/// `a - b` stays within `i64` when both are present.
pub open spec fn sub_fits(a: Option<i64>, b: Option<i64>) -> bool {
    match a {
        Some(x) => match b {
            Some(y) => i64::MIN <= x - y <= i64::MAX,
            None => true,
        },
        None => true,
    }
}

pub fn sub_opt(a: Option<i64>, b: Option<i64>) -> (res: Option<i64>)
    requires
        sub_fits(a, b),
    ensures
        res == opt_sub(a, b),
{
    match a {
        Some(x) => match b {
            Some(y) => Some(x - y),
            None => None,
        },
        None => None,
    }
}

pub fn min_opt(a: Option<i64>, b: Option<i64>) -> (res: Option<i64>)
    ensures
        res == opt_min(a, b),
{
    match a {
        None => b,
        Some(x) => match b {
            None => Some(x),
            Some(y) => if y < x {
                Some(y)
            } else {
                Some(x)
            },
        },
    }
}

/// The minimum of a list of times.
pub fn min_time(s: &Vec<i64>) -> (res: Option<i64>)
    ensures
        res == min_of(s@),
{
    let mut res: Option<i64> = None;
    let mut i: usize = 0;
    while i < s.len()
        invariant
            i <= s.len(),
            res == min_of(s@.take(i as int)),
        decreases s.len() - i,
    {
        assert(s@.take(i + 1).drop_last() =~= s@.take(i as int));
        res = min_opt(res, Some(s[i]));
        i = i + 1;
    }
    assert(s@.take(s.len() as int) =~= s@);
    res
}

/// The minimum latency of a list of sightings.
pub fn min_latency(s: &Vec<OperationNodeCurrentHeadStats>) -> (res: Option<i64>)
    ensures
        res == min_of(latencies(s@)),
{
    let mut res: Option<i64> = None;
    let mut i: usize = 0;
    while i < s.len()
        invariant
            i <= s.len(),
            res == min_of(latencies(s@).take(i as int)),
        decreases s.len() - i,
    {
        assert(latencies(s@).take(i + 1).drop_last() =~= latencies(s@).take(i as int));
        res = min_opt(res, Some(s[i].latency));
        i = i + 1;
    }
    assert(latencies(s@).take(s.len() as int) =~= latencies(s@));
    res
}

impl OperationNodeStats {
    /// The minimum of the times of one kind in this report.
    pub fn min_of(&self, which: &NodeTimes) -> (res: Option<i64>)
        ensures
            res == min_of(node_times(*self, *which)),
    {
        match which {
            NodeTimes::Received => min_latency(&self.received),
            NodeTimes::Sent => min_latency(&self.sent),
            NodeTimes::ContentReceived => min_time(&self.content_received),
            NodeTimes::ContentRequestedRemote => min_time(&self.content_requested_remote),
            NodeTimes::ContentSent => min_time(&self.content_sent),
        }
    }
}

/// The earliest time of one kind over a list of node reports.
pub fn earliest_of(nodes: &Vec<(String, OperationNodeStats)>, which: NodeTimes) -> (res: Option<i64>)
    ensures
        res == earliest(nodes@, which),
{
    let mut res: Option<i64> = None;
    let mut i: usize = 0;
    while i < nodes.len()
        invariant
            i <= nodes.len(),
            res == earliest(nodes@.take(i as int), which),
        decreases nodes.len() - i,
    {
        assert(nodes@.take(i + 1).drop_last() =~= nodes@.take(i as int));
        assert(nodes@.take(i + 1).last() == nodes@[i as int]);
        let m = nodes[i].1.min_of(&which);
        res = min_opt(res, m);
        i = i + 1;
    }
    assert(nodes@.take(nodes.len() as int) =~= nodes@);
    res
}

/// The row of the details table: what one node reported of an operation.
#[derive(Debug)]
pub struct OperationDetailSortable {
    pub node_id: String,
    pub first_received: Option<i64>,
    pub first_content_received: Option<i64>,
    pub first_sent: Option<i64>,
    pub received: usize,
    pub content_received: usize,
    pub sent: usize,
}

/// The row of the main statistics table: one operation.
#[derive(Debug)]
pub struct OperationStatsSortable {
    pub datetime: u64,
    pub hash: String,
    pub nodes: usize,
    pub delta: Option<i64>,
    pub received: Option<i64>,
    pub content_received: Option<i64>,
    pub validation_started: Option<i64>,
    pub preapply_started: Option<i64>,
    pub preapply_ended: Option<i64>,
    pub validation_finished: Option<i64>,
    pub validations_length: usize,
    pub sent: Option<i64>,
    pub kind: Option<OperationKind>,
    // Deltas
    pub content_received_delta: Option<i64>,
    pub validation_started_delta: Option<i64>,
    pub preapply_started_delta: Option<i64>,
    pub preapply_ended_delta: Option<i64>,
    pub validation_finished_delta: Option<i64>,
    pub sent_delta: Option<i64>,
}

impl OperationStats {
    /// The time validation finished.
    pub open spec fn finished(&self) -> Option<i64> {
        match self.validation_result {
            Some(r) => Some(r.0),
            None => None,
        }
    }

    /// The time preapplication started.
    pub open spec fn preapply_start(&self) -> Option<i64> {
        match self.validation_result {
            Some(r) => r.2,
            None => None,
        }
    }

    /// The time preapplication ended.
    pub open spec fn preapply_end(&self) -> Option<i64> {
        match self.validation_result {
            Some(r) => r.3,
            None => None,
        }
    }

    /// All the differences that the statistics row computes stay within `i64`.
    pub open spec fn deltas_fit(&self) -> bool {
        let received = earliest(self.nodes@, NodeTimes::Received);
        let sent = earliest(self.nodes@, NodeTimes::Sent);
        let content = earliest(self.nodes@, NodeTimes::ContentReceived);
        &&& sub_fits(sent, received)
        &&& sub_fits(content, received)
        &&& sub_fits(self.validation_started, content)
        &&& sub_fits(self.preapply_start(), self.validation_started)
        &&& sub_fits(self.preapply_end(), self.preapply_start())
        &&& sub_fits(self.finished(), self.validation_started)
        &&& sub_fits(sent, self.finished())
    }

    /// The statistics row of this operation, under the hash `hash`: the
    /// earliest sightings over all nodes, the validation times and the
    /// differences between consecutive steps.
    pub open spec fn sortable_of(&self, hash: String) -> OperationStatsSortable {
        let received = earliest(self.nodes@, NodeTimes::Received);
        let sent = earliest(self.nodes@, NodeTimes::Sent);
        let content = earliest(self.nodes@, NodeTimes::ContentReceived);
        OperationStatsSortable {
            datetime: match self.first_block_timestamp {
                Some(t) => t,
                None => 0,
            },
            hash,
            nodes: self.nodes@.len() as usize,
            delta: opt_sub(sent, received),
            received,
            content_received: content,
            validation_started: self.validation_started,
            preapply_started: self.preapply_start(),
            preapply_ended: self.preapply_end(),
            validation_finished: self.finished(),
            validations_length: self.validations.len(),
            sent,
            kind: self.kind,
            content_received_delta: opt_sub(content, received),
            validation_started_delta: opt_sub(self.validation_started, content),
            preapply_started_delta: opt_sub(self.preapply_start(), self.validation_started),
            preapply_ended_delta: opt_sub(self.preapply_end(), self.preapply_start()),
            validation_finished_delta: opt_sub(self.finished(), self.validation_started),
            sent_delta: opt_sub(sent, self.finished()),
        }
    }

    /// The row of the main statistics table for this operation.
    pub fn to_statistics_sortable(&self, hash: String) -> (res: OperationStatsSortable)
        requires
            self.deltas_fit(),
        ensures
            res == self.sortable_of(hash),
    {
        let nodes = self.nodes.len();
        let first_received = earliest_of(self.nodes.entries(), NodeTimes::Received);
        let first_sent = self.first_sent();
        let delta = sub_opt(first_sent, first_received);
        let content_received = earliest_of(self.nodes.entries(), NodeTimes::ContentReceived);
        let (validation_finished, preapply_started, preapply_ended) = match self.validation_result {
            Some(validation_res) => (Some(validation_res.0), validation_res.2, validation_res.3),
            None => (None, None, None),
        };
        let validations_length = self.validations.len();
        let content_received_delta = sub_opt(content_received, first_received);
        let validation_started_delta = sub_opt(self.validation_started, content_received);
        let preapply_started_delta = sub_opt(preapply_started, self.validation_started);
        let preapply_ended_delta = sub_opt(preapply_ended, preapply_started);
        let validation_finished_delta = sub_opt(validation_finished, self.validation_started);
        let sent_delta = sub_opt(first_sent, validation_finished);
        OperationStatsSortable {
            datetime: match self.first_block_timestamp {
                Some(t) => t,
                None => 0,
            },
            hash,
            nodes,
            delta,
            received: first_received,
            content_received,
            validation_started: self.validation_started,
            preapply_started,
            preapply_ended,
            validation_finished,
            validations_length,
            sent: first_sent,
            kind: self.kind,
            content_received_delta,
            validation_started_delta,
            preapply_started_delta,
            preapply_ended_delta,
            validation_finished_delta,
            sent_delta,
        }
    }

    /// The details row of one node report: its first sightings and counts.
    pub open spec fn detail_of(node: (String, OperationNodeStats)) -> OperationDetailSortable {
        OperationDetailSortable {
            node_id: node.0,
            first_received: if node.1.received@.len() > 0 {
                Some(node.1.received@[0].latency)
            } else {
                None
            },
            first_content_received: if node.1.content_received@.len() > 0 {
                Some(node.1.content_received@[0])
            } else {
                None
            },
            first_sent: min_of(latencies(node.1.sent@)),
            received: node.1.received.len(),
            content_received: node.1.content_received.len(),
            sent: node.1.sent.len(),
        }
    }

    /// One details row per node report, in the order of the node ids, which
    /// ascend, each once.
    pub fn to_operations_details(&self) -> (res: Vec<OperationDetailSortable>)
        ensures
            res@ == self.nodes@.map_values(|n: (String, OperationNodeStats)| Self::detail_of(n)),
            res@.len() == self.nodes@.len(),
            forall|i: int, j: int|
                0 <= i < j < res@.len() ==> text_le((#[trigger] res@[i]).node_id@, (#[trigger] res@[j]).node_id@)
                    && res@[i].node_id@ != res@[j].node_id@,
    {
        let nodes = self.nodes.entries();
        let mut res: Vec<OperationDetailSortable> = Vec::new();
        let mut i: usize = 0;
        while i < nodes.len()
            invariant
                nodes@ == self.nodes@,
                i <= nodes@.len(),
                res@ == self.nodes@.take(i as int).map_values(|n: (String, OperationNodeStats)| Self::detail_of(n)),
            decreases nodes@.len() - i,
        {
            let node = &nodes[i];
            let stats = &node.1;
            let first_received = if stats.received.len() > 0 {
                Some(stats.received[0].latency)
            } else {
                None
            };
            let first_content_received = if stats.content_received.len() > 0 {
                Some(stats.content_received[0])
            } else {
                None
            };
            let first_sent = min_latency(&stats.sent);
            res.push(
                OperationDetailSortable {
                    node_id: node.0.clone(),
                    first_received,
                    first_content_received,
                    first_sent,
                    received: stats.received.len(),
                    content_received: stats.content_received.len(),
                    sent: stats.sent.len(),
                },
            );
            assert(res@ =~= self.nodes@.take(i + 1).map_values(|n: (String, OperationNodeStats)| Self::detail_of(n)));
            i = i + 1;
        }
        assert(self.nodes@.take(self.nodes@.len() as int) =~= self.nodes@);
        assert forall|a: int| 0 <= a < res@.len() implies (#[trigger] res@[a]).node_id == self.nodes@[a].0 by {}
        res
    }

    /// The statistics of an operation of which nothing is known.
    pub fn default() -> (res: OperationStats)
        ensures
            res.kind is None,
            res.min_time is None,
            res.first_block_timestamp is None,
            res.validation_started is None,
            res.validation_result is None,
            res.validations@.len() == 0,
            res.nodes@.len() == 0,
            res.injected_timestamp is None,
    {
        OperationStats {
            kind: None,
            min_time: None,
            first_block_timestamp: None,
            validation_started: None,
            validation_result: None,
            validations: Vec::new(),
            nodes: NodeReports::new(),
            injected_timestamp: None,
        }
    }

    pub fn node_count(&self) -> (res: usize)
        ensures
            res == self.nodes@.len(),
    {
        self.nodes.len()
    }

    pub fn is_injected(&self) -> (res: bool)
        ensures
            res == self.injected_timestamp is Some,
    {
        self.injected_timestamp.is_some()
    }

    /// How long validation took.
    pub fn validation_duration(&self) -> (res: Option<i64>)
        requires
            sub_fits(self.finished(), self.validation_started),
        ensures
            res == opt_sub(self.finished(), self.validation_started),
    {
        match self.validation_started {
            Some(start) => match self.validation_result {
                Some(r) => Some(r.0 - start),
                None => None,
            },
            None => None,
        }
    }

    pub fn validation_ended(&self) -> (res: Option<i64>)
        ensures
            res == self.finished(),
    {
        match self.validation_result {
            Some(r) => Some(r.0),
            None => None,
        }
    }

    /// The earliest time any node sent the operation.
    pub fn first_sent(&self) -> (res: Option<i64>)
        ensures
            res == earliest(self.nodes@, NodeTimes::Sent),
    {
        earliest_of(self.nodes.entries(), NodeTimes::Sent)
    }

    /// The earliest time any node was asked for the operation's content.
    pub fn first_content_requested_remote(&self) -> (res: Option<i64>)
        ensures
            res == earliest(self.nodes@, NodeTimes::ContentRequestedRemote),
    {
        earliest_of(self.nodes.entries(), NodeTimes::ContentRequestedRemote)
    }

    /// The earliest time any node sent the operation's content.
    pub fn first_content_sent(&self) -> (res: Option<i64>)
        ensures
            res == earliest(self.nodes@, NodeTimes::ContentSent),
    {
        earliest_of(self.nodes.entries(), NodeTimes::ContentSent)
    }
}


/// The time of day of a Unix timestamp in UTC, as `hh:mm:ss`; empty for a
/// timestamp outside the years -9999 to 9999.
pub open spec fn clock_text(t: int) -> Seq<char> {
    if -377705116800 <= t <= 253402300799 {
        let s = t % 86400;
        two_digits(s / 3600) + seq![':'] + two_digits((s % 3600) / 60) + seq![':'] + two_digits(s % 60)
    } else {
        Seq::empty()
    }
}

/// Calls `time::OffsetDateTime::from_unix_timestamp` and formats the result
/// with the description `[hour]:[minute]:[second]`, which gives the UTC
/// time of day with two digits each; the text is empty where the timestamp
/// lies outside the years that the `time` crate accepts.
#[verifier::external_body]
fn format_clock_time(unix_seconds: i64) -> (res: String)
    ensures
        res@ == clock_text(unix_seconds as int),
{
    let format = time::format_description::parse("[hour]:[minute]:[second]").unwrap_or_default();
    time::OffsetDateTime::from_unix_timestamp(unix_seconds)
        .ok()
        .and_then(|dt| dt.format(&format).ok())
        .unwrap_or_default()
}

/// The style of most cells of the statistics tables.
pub open spec fn default_style() -> CellStyle {
    CellStyle::dimmed(Color::White)
}

pub fn default_cell_style() -> (res: CellStyle)
    ensures
        res == default_style(),
{
    CellStyle { fg: Some(Color::White), bg: None, dim: true }
}

/// An optional time as a wide integer.
pub open spec fn wide(o: Option<i64>) -> Option<int> {
    match o {
        Some(v) => Some(v as int),
        None => None,
    }
}

pub fn widen(o: Option<i64>) -> (res: Option<i128>)
    ensures
        match res {
            Some(v) => wide(o) == Some(v as int),
            None => o is None,
        },
{
    match o {
        Some(v) => Some(v as i128),
        None => None,
    }
}

impl TuiTableData for OperationStatsSortable {
    open spec fn table_row(&self, delta_toggle: bool) -> Seq<(CellText, CellStyle)> {
        let d = default_style();
        seq![
            (CellText::Text(clock_text((self.datetime as i64) as int)), d),
            (CellText::Text(self.hash@), d),
            (CellText::Text(nat_to_decimal(self.nodes as nat)), CellStyle::dimmed(Color::Gray)),
            styled_time_cell(wide(self.delta)),
            plain_time_cell(wide(self.received), d),
        ] + (if delta_toggle {
            seq![
                styled_time_cell(wide(self.content_received_delta)),
                styled_time_cell(wide(self.validation_started_delta)),
                styled_time_cell(wide(self.preapply_started_delta)),
                styled_time_cell(wide(self.preapply_ended_delta)),
                styled_time_cell(wide(self.validation_finished_delta)),
            ]
        } else {
            seq![
                plain_time_cell(wide(self.content_received), d),
                plain_time_cell(wide(self.validation_started), d),
                plain_time_cell(wide(self.preapply_started), d),
                plain_time_cell(wide(self.preapply_ended), d),
                plain_time_cell(wide(self.validation_finished), d),
            ]
        }) + seq![
            if self.validations_length != 0 {
                (CellText::Text(nat_to_decimal(self.validations_length as nat)), d)
            } else {
                missing_cell()
            },
            if delta_toggle {
                styled_time_cell(wide(self.sent_delta))
            } else {
                plain_time_cell(wide(self.sent), d)
            },
            match self.kind {
                Some(k) => (CellText::Text(kind_name(k)), d),
                None => missing_cell(),
            },
        ]
    }

    fn construct_tui_table_data(&self, delta_toggle: bool) -> (res: Vec<(CellContent, CellStyle)>) {
        let d = default_cell_style();
        let mut v: Vec<(CellContent, CellStyle)> = Vec::new();
        v.push((CellContent::Text(format_clock_time(self.datetime as i64)), d));
        v.push((CellContent::Text(self.hash.clone()), d));
        v.push((CellContent::Text(usize_to_string(self.nodes)), CellStyle { fg: Some(Color::Gray), bg: None, dim: true }));
        v.push(styled_time(widen(self.delta)));
        v.push(plain_time(widen(self.received), d));
        if delta_toggle {
            v.push(styled_time(widen(self.content_received_delta)));
            v.push(styled_time(widen(self.validation_started_delta)));
            v.push(styled_time(widen(self.preapply_started_delta)));
            v.push(styled_time(widen(self.preapply_ended_delta)));
            v.push(styled_time(widen(self.validation_finished_delta)));
        } else {
            v.push(plain_time(widen(self.content_received), d));
            v.push(plain_time(widen(self.validation_started), d));
            v.push(plain_time(widen(self.preapply_started), d));
            v.push(plain_time(widen(self.preapply_ended), d));
            v.push(plain_time(widen(self.validation_finished), d));
        }
        if self.validations_length != 0 {
            v.push((CellContent::Text(usize_to_string(self.validations_length)), d));
        } else {
            v.push(missing_value());
        }
        if delta_toggle {
            v.push(styled_time(widen(self.sent_delta)));
        } else {
            v.push(plain_time(widen(self.sent), d));
        }
        match self.kind {
            Some(k) => v.push((CellContent::Text(k.to_string()), d)),
            None => v.push(missing_value()),
        }
        assert(row_view(v@) =~= self.table_row(delta_toggle));
        v
    }
}

impl TuiTableData for OperationDetailSortable {
    open spec fn table_row(&self, delta_toggle: bool) -> Seq<(CellText, CellStyle)> {
        let d = default_style();
        seq![
            (CellText::Text(self.node_id@), d),
            plain_time_cell(wide(self.first_received), d),
            plain_time_cell(wide(self.first_content_received), d),
            plain_time_cell(wide(self.first_sent), d),
            (CellText::Text(nat_to_decimal(self.received as nat)), d),
            (CellText::Text(nat_to_decimal(self.content_received as nat)), d),
            (CellText::Text(nat_to_decimal(self.sent as nat)), d),
        ]
    }

    fn construct_tui_table_data(&self, delta_toggle: bool) -> (res: Vec<(CellContent, CellStyle)>) {
        let d = default_cell_style();
        let mut v: Vec<(CellContent, CellStyle)> = Vec::new();
        v.push((CellContent::Text(self.node_id.clone()), d));
        v.push(plain_time(widen(self.first_received), d));
        v.push(plain_time(widen(self.first_content_received), d));
        v.push(plain_time(widen(self.first_sent), d));
        v.push((CellContent::Text(usize_to_string(self.received)), d));
        v.push((CellContent::Text(usize_to_string(self.content_received)), d));
        v.push((CellContent::Text(usize_to_string(self.sent)), d));
        assert(row_view(v@) =~= self.table_row(delta_toggle));
        v
    }
}

/// The key of an optional time.
pub open spec fn time_key(o: Option<i64>) -> SortKeyView {
    opt_key(wide(o))
}

pub fn time_key_exec(o: Option<i64>) -> (k: SortKey)
    ensures
        k@ == time_key(o),
{
    match o {
        Some(v) => SortKey::Int(v as i128),
        None => SortKey::Int(-0x1_0000_0000_0000_0000i128),
    }
}

impl FocusKey for OperationStatsSortable {
    open spec fn key_columns() -> nat {
        13
    }

    open spec fn focus_key(&self, focus_index: usize, delta_toggle: bool) -> SortKeyView {
        if focus_index == 0 {
            SortKeyView::Int(self.datetime as int)
        } else if focus_index == 1 {
            SortKeyView::Text(self.hash@)
        } else if focus_index == 2 {
            SortKeyView::Int(self.nodes as int)
        } else if focus_index == 3 {
            time_key(self.delta)
        } else if focus_index == 4 {
            time_key(self.received)
        } else if focus_index == 5 {
            time_key(if delta_toggle { self.content_received_delta } else { self.content_received })
        } else if focus_index == 6 {
            time_key(if delta_toggle { self.validation_started_delta } else { self.validation_started })
        } else if focus_index == 7 {
            time_key(if delta_toggle { self.preapply_started_delta } else { self.preapply_started })
        } else if focus_index == 8 {
            time_key(if delta_toggle { self.preapply_ended_delta } else { self.preapply_ended })
        } else if focus_index == 9 {
            time_key(if delta_toggle { self.validation_finished_delta } else { self.validation_finished })
        } else if focus_index == 10 {
            SortKeyView::Int(self.validations_length as int)
        } else if focus_index == 11 {
            time_key(if delta_toggle { self.sent_delta } else { self.sent })
        } else {
            match self.kind {
                Some(k) => SortKeyView::Int(kind_rank(k)),
                None => SortKeyView::Int(-1),
            }
        }
    }

    fn key_column_count() -> (n: usize) {
        13
    }

    fn focus_key_exec(&self, focus_index: usize, delta_toggle: bool) -> (k: SortKey) {
        if focus_index == 0 {
            SortKey::Int(self.datetime as i128)
        } else if focus_index == 1 {
            SortKey::Text(self.hash.clone())
        } else if focus_index == 2 {
            SortKey::Int(self.nodes as i128)
        } else if focus_index == 3 {
            time_key_exec(self.delta)
        } else if focus_index == 4 {
            time_key_exec(self.received)
        } else if focus_index == 5 {
            time_key_exec(if delta_toggle { self.content_received_delta } else { self.content_received })
        } else if focus_index == 6 {
            time_key_exec(if delta_toggle { self.validation_started_delta } else { self.validation_started })
        } else if focus_index == 7 {
            time_key_exec(if delta_toggle { self.preapply_started_delta } else { self.preapply_started })
        } else if focus_index == 8 {
            time_key_exec(if delta_toggle { self.preapply_ended_delta } else { self.preapply_ended })
        } else if focus_index == 9 {
            time_key_exec(if delta_toggle { self.validation_finished_delta } else { self.validation_finished })
        } else if focus_index == 10 {
            SortKey::Int(self.validations_length as i128)
        } else if focus_index == 11 {
            time_key_exec(if delta_toggle { self.sent_delta } else { self.sent })
        } else {
            match self.kind {
                Some(k) => SortKey::Int(k.rank() as i128),
                None => SortKey::Int(-1),
            }
        }
    }
}

impl FocusKey for OperationDetailSortable {
    open spec fn key_columns() -> nat {
        7
    }

    open spec fn focus_key(&self, focus_index: usize, delta_toggle: bool) -> SortKeyView {
        if focus_index == 0 {
            SortKeyView::Text(self.node_id@)
        } else if focus_index == 1 {
            time_key(self.first_received)
        } else if focus_index == 2 {
            time_key(self.first_content_received)
        } else if focus_index == 3 {
            time_key(self.first_sent)
        } else if focus_index == 4 {
            SortKeyView::Int(self.received as int)
        } else if focus_index == 5 {
            SortKeyView::Int(self.content_received as int)
        } else {
            SortKeyView::Int(self.sent as int)
        }
    }

    fn key_column_count() -> (n: usize) {
        7
    }

    fn focus_key_exec(&self, focus_index: usize, delta_toggle: bool) -> (k: SortKey) {
        if focus_index == 0 {
            SortKey::Text(self.node_id.clone())
        } else if focus_index == 1 {
            time_key_exec(self.first_received)
        } else if focus_index == 2 {
            time_key_exec(self.first_content_received)
        } else if focus_index == 3 {
            time_key_exec(self.first_sent)
        } else if focus_index == 4 {
            SortKey::Int(self.received as i128)
        } else if focus_index == 5 {
            SortKey::Int(self.content_received as i128)
        } else {
            SortKey::Int(self.sent as i128)
        }
    }
}

/// Each column of the statistics table is sorted by what it shows: the
/// time of day by the timestamp it is read from, the hash by its text, the
/// node count and the validation count by the number shown (no validations
/// shown as a dash), each time column by the time its cell shows, where a
/// dash sorts before every time, and the kind column by the kind, each kind
/// apart from the others and a missing kind first; with relative or
/// absolute times alike.
pub proof fn lemma_statistics_columns_sort_by_what_they_show(
    row: OperationStatsSortable,
    other: OperationStatsSortable,
    delta_toggle: bool,
)
    ensures
        row.focus_key(0, delta_toggle) matches SortKeyView::Int(t) && t >= 0
            && row.table_row(delta_toggle)[0].0 == CellText::Text(clock_text(((t as u64) as i64) as int)),
        row.focus_key(1, delta_toggle) matches SortKeyView::Text(t)
            && row.table_row(delta_toggle)[1].0 == CellText::Text(t),
        row.focus_key(2, delta_toggle) matches SortKeyView::Int(n) && n >= 0
            && row.table_row(delta_toggle)[2].0 == CellText::Text(nat_to_decimal(n as nat)),
        forall|c: usize| (3 <= c < 10 || c == 11) ==> #[trigger] row.focus_key(c, delta_toggle)
            == opt_key(shown_time(row.table_row(delta_toggle)[c as int].0)),
        row.focus_key(10, delta_toggle) matches SortKeyView::Int(n) && n >= 0
            && row.table_row(delta_toggle)[10] == (if n == 0 {
                missing_cell()
            } else {
                (CellText::Text(nat_to_decimal(n as nat)), default_style())
            }),
        (row.focus_key(12, delta_toggle) == other.focus_key(12, delta_toggle)) <==> (row.kind == other.kind),
        row.kind matches Some(k) ==> row.table_row(delta_toggle)[12] == (CellText::Text(kind_name(k)), default_style()),
        row.kind is None ==> row.focus_key(12, delta_toggle) == SortKeyView::Int(-1)
            && row.table_row(delta_toggle)[12] == missing_cell(),
        row.kind is Some ==> (row.focus_key(12, delta_toggle) matches SortKeyView::Int(r) && r >= 0),
{
    let r = row.table_row(delta_toggle);
    assert forall|c: usize| (3 <= c < 10 || c == 11) implies #[trigger] row.focus_key(c, delta_toggle)
        == opt_key(shown_time(r[c as int].0)) by {
    }
}

/// `m` is the least of the values `s`: one of them and at most each of
/// them; `None` exactly where `s` is empty.
pub open spec fn is_least(s: Seq<i64>, m: Option<i64>) -> bool {
    match m {
        Some(v) => s.contains(v) && forall|j: int| 0 <= j < s.len() ==> v <= #[trigger] s[j],
        None => s.len() == 0,
    }
}

/// The minimum of a sequence is its least value.
pub proof fn lemma_min_of_is_least(s: Seq<i64>)
    ensures
        is_least(s, min_of(s)),
    decreases s.len(),
{
    if s.len() > 0 {
        let d = s.drop_last();
        lemma_min_of_is_least(d);
        assert forall|j: int| 0 <= j < d.len() implies #[trigger] s[j] == d[j] by {}
        assert(s[s.len() - 1] == s.last());
        if let Some(v) = min_of(d) {
            let j0 = choose|j: int| 0 <= j < d.len() && d[j] == v;
            assert(s[j0] == v);
        }
    }
}

/// `m` is the least time of one kind over the node reports `nodes`: one of
/// their times and at most each of them; `None` exactly where no report
/// has a time of that kind.
pub open spec fn is_earliest(nodes: Seq<(String, OperationNodeStats)>, which: NodeTimes, m: Option<i64>) -> bool {
    match m {
        Some(v) => {
            &&& exists|i: int| 0 <= i < nodes.len() && #[trigger] node_times(nodes[i].1, which).contains(v)
            &&& forall|i: int, j: int| 0 <= i < nodes.len() && 0 <= j < node_times(nodes[i].1, which).len()
                ==> v <= #[trigger] node_times(nodes[i].1, which)[j]
        },
        None => forall|i: int| 0 <= i < nodes.len() ==> #[trigger] node_times(nodes[i].1, which).len() == 0,
    }
}

/// The earliest time over the node reports is their least time of that kind.
pub proof fn lemma_earliest_is_least(nodes: Seq<(String, OperationNodeStats)>, which: NodeTimes)
    ensures
        is_earliest(nodes, which, earliest(nodes, which)),
    decreases nodes.len(),
{
    if nodes.len() > 0 {
        let d = nodes.drop_last();
        let last = nodes.len() - 1;
        lemma_earliest_is_least(d, which);
        assert forall|i: int| 0 <= i < d.len() implies #[trigger] nodes[i] == d[i] by {}
        assert(nodes[last] == nodes.last());
        let t = node_times(nodes.last().1, which);
        lemma_min_of_is_least(t);
        if let Some(v) = earliest(d, which) {
            let i0 = choose|i: int| 0 <= i < d.len() && #[trigger] node_times(d[i].1, which).contains(v);
            assert(node_times(nodes[i0].1, which).contains(v));
        }
        if let Some(v) = min_of(t) {
            assert(node_times(nodes[last].1, which).contains(v));
        }
        let m = earliest(nodes, which);
        assert forall|i: int, j: int| 0 <= i < nodes.len() && 0 <= j < node_times(nodes[i].1, which).len()
            implies (m matches Some(v) && v <= #[trigger] node_times(nodes[i].1, which)[j]) by {
            if i < last {
                assert(node_times(d[i].1, which)[j] == node_times(nodes[i].1, which)[j]);
            }
        }
    }
}

/// The details rows of an operation follow its node reports one for one:
/// each shows the node's id, the latency of its first sighting of the
/// operation and the time of its first receipt of the content (none where
/// it has none), its least sending latency (none where it never sent), and
/// how often it received, received the content and sent.
pub proof fn lemma_details_follow_the_reports(stats: OperationStats)
    ensures
        details_rows(stats).len() == stats.nodes@.len(),
        forall|i: int| 0 <= i < stats.nodes@.len() ==> {
            let (id, n) = stats.nodes@[i];
            let d = #[trigger] details_rows(stats)[i];
            &&& d.node_id == id
            &&& d.first_received == (if n.received@.len() == 0 {
                None
            } else {
                Some(n.received@[0].latency)
            })
            &&& d.first_content_received == (if n.content_received@.len() == 0 {
                None
            } else {
                Some(n.content_received@[0])
            })
            &&& is_least(n.sent@.map_values(|s: OperationNodeCurrentHeadStats| s.latency), d.first_sent)
            &&& d.received == n.received@.len()
            &&& d.content_received == n.content_received@.len()
            &&& d.sent == n.sent@.len()
        },
{
    assert forall|i: int| 0 <= i < stats.nodes@.len() implies {
        let (id, n) = stats.nodes@[i];
        let d = #[trigger] details_rows(stats)[i];
        &&& d.node_id == id
        &&& d.first_received == (if n.received@.len() == 0 {
            None
        } else {
            Some(n.received@[0].latency)
        })
        &&& d.first_content_received == (if n.content_received@.len() == 0 {
            None
        } else {
            Some(n.content_received@[0])
        })
        &&& is_least(n.sent@.map_values(|s: OperationNodeCurrentHeadStats| s.latency), d.first_sent)
        &&& d.received == n.received@.len()
        &&& d.content_received == n.content_received@.len()
        &&& d.sent == n.sent@.len()
    } by {
        lemma_min_of_is_least(latencies(stats.nodes@[i].1.sent@));
    }
}

/// `d` is how long after `earlier` came `later`: known exactly where both
/// are, and then `earlier + d == later`.
pub open spec fn measured_time(d: Option<i64>, later: Option<i64>, earlier: Option<i64>) -> bool {
    &&& d is Some <==> (later is Some && earlier is Some)
    &&& d matches Some(v) ==> earlier->0 + v == later->0
}

/// The statistics row of an operation shows, of all node reports, the
/// earliest sighting, the earliest receipt of the content and the earliest
/// sending; the validation's own times as they are; and each step measured
/// from the one before it: the content's receipt and the sending from the
/// sighting, the validation's start from the content's receipt, the
/// preapplication's start and the validation's end from the validation's
/// start, the preapplication's end from its start, and the sending from the
/// validation's end.
pub proof fn lemma_statistics_row_takes_the_earliest_times(stats: OperationStats, hash: String)
    requires
        stats.deltas_fit(),
    ensures
        is_earliest(stats.nodes@, NodeTimes::Received, stats.sortable_of(hash).received),
        is_earliest(stats.nodes@, NodeTimes::ContentReceived, stats.sortable_of(hash).content_received),
        is_earliest(stats.nodes@, NodeTimes::Sent, stats.sortable_of(hash).sent),
        ({
            let r = stats.sortable_of(hash);
            &&& r.hash == hash
            &&& r.validation_started == stats.validation_started
            &&& r.validation_finished == stats.finished()
            &&& r.preapply_started == stats.preapply_start()
            &&& r.preapply_ended == stats.preapply_end()
            &&& r.kind == stats.kind
            &&& r.validations_length == stats.validations@.len()
            &&& measured_time(r.delta, r.sent, r.received)
            &&& measured_time(r.content_received_delta, r.content_received, r.received)
            &&& measured_time(r.validation_started_delta, stats.validation_started, r.content_received)
            &&& measured_time(r.preapply_started_delta, stats.preapply_start(), stats.validation_started)
            &&& measured_time(r.preapply_ended_delta, stats.preapply_end(), stats.preapply_start())
            &&& measured_time(r.validation_finished_delta, stats.finished(), stats.validation_started)
            &&& measured_time(r.sent_delta, r.sent, stats.finished())
        }),
{
    lemma_earliest_is_least(stats.nodes@, NodeTimes::Received);
    lemma_earliest_is_least(stats.nodes@, NodeTimes::ContentReceived);
    lemma_earliest_is_least(stats.nodes@, NodeTimes::Sent);
}

/// Each column of the details table is sorted by what it shows: the node id
/// by its text, the first sightings by the time the cell shows, where a dash
/// sorts before every time, and the counts by the number shown.
pub proof fn lemma_details_columns_sort_by_what_they_show(row: OperationDetailSortable, delta_toggle: bool)
    ensures
        row.focus_key(0, delta_toggle) matches SortKeyView::Text(t)
            && row.table_row(delta_toggle)[0].0 == CellText::Text(t),
        forall|c: usize| 1 <= c < 4 ==> #[trigger] row.focus_key(c, delta_toggle)
            == opt_key(shown_time(row.table_row(delta_toggle)[c as int].0)),
        forall|c: usize| 4 <= c < 7 ==> (#[trigger] row.focus_key(c, delta_toggle) matches SortKeyView::Int(n) && n >= 0
            && row.table_row(delta_toggle)[c as int].0 == CellText::Text(nat_to_decimal(n as nat))),
{
    let r = row.table_row(delta_toggle);
    assert forall|c: usize| 1 <= c < 4 implies #[trigger] row.focus_key(c, delta_toggle)
        == opt_key(shown_time(r[c as int].0)) by {
    }
    assert forall|c: usize| 4 <= c < 7 implies (#[trigger] row.focus_key(c, delta_toggle) matches SortKeyView::Int(n) && n >= 0
        && r[c as int].0 == CellText::Text(nat_to_decimal(n as nat))) by {
    }
}

pub type OperationsStatsSortable = Vec<OperationStatsSortable>;
pub type OperationDetailsSortable = Vec<OperationDetailSortable>;

/// The statistics screen: the statistics of all operations, in the order of
/// their hashes, and the two tables that show them.
#[derive(Debug)]
pub struct OperationsStatisticsState {
    pub operations_statistics: TextMap<OperationStats>,
    pub main_operation_statistics_table: ExtendedTable<OperationsStatsSortable>,
    pub details_operation_statistics_table: ExtendedTable<OperationDetailsSortable>,
}

/// Builds a list of owned strings from literals.
pub fn strings_of(items: &[&str]) -> (res: Vec<String>)
    ensures
        res@.len() == items@.len(),
        forall|i: int| 0 <= i < items@.len() ==> (#[trigger] res@[i])@ == items@[i]@,
{
    let mut res: Vec<String> = Vec::new();
    let mut i: usize = 0;
    while i < items.len()
        invariant
            i <= items@.len(),
            res@.len() == i,
            forall|k: int| 0 <= k < i ==> (#[trigger] res@[k])@ == items@[k]@,
        decreases items@.len() - i,
    {
        res.push(String::from_str(items[i]));
        i = i + 1;
    }
    res
}

/// The column headers of the main statistics table.
pub open spec fn main_headers() -> Seq<Seq<char>> {
    seq![
        "Datetime"@, "Hash"@, "Nodes"@, "Delta"@, "Received"@, "Content Received"@,
        "Validation Started"@, "Preapply Started"@, "Preapply Finished"@,
        "Validation Finished"@, "Validation Length"@, "Sent"@, "Kind"@,
    ]
}

/// The column headers of the details table.
pub open spec fn details_headers() -> Seq<Seq<char>> {
    seq![
        "Node Id"@, "First Received"@, "First Content Received"@, "First Sent"@,
        "Received"@, "Content Received"@, "Sent"@,
    ]
}

/// The column constraints of the main statistics table.
pub open spec fn main_constraints() -> Seq<Constraint> {
    seq![
        Constraint::Min(22), Constraint::Min(9), Constraint::Min(8), Constraint::Min(9),
        Constraint::Min(11), Constraint::Min(19), Constraint::Min(21), Constraint::Min(19),
        Constraint::Min(20), Constraint::Min(22), Constraint::Min(20), Constraint::Min(9),
        Constraint::Min(19),
    ]
}

/// The column constraints of the details table.
pub open spec fn details_constraints() -> Seq<Constraint> {
    seq![
        Constraint::Min(9), Constraint::Min(16), Constraint::Min(24), Constraint::Min(12),
        Constraint::Min(10), Constraint::Min(18), Constraint::Min(9),
    ]
}

impl OperationsStatisticsState {
    /// The state before any statistics arrived: empty tables with their
    /// headers and column constraints, three columns of each fixed.
    pub fn default() -> (res: OperationsStatisticsState)
        ensures
            res.operations_statistics.entries@.len() == 0,
            res.operations_statistics@ == Map::<Seq<char>, OperationStats>::empty(),
            res.operations_statistics.well_formed(),
            crate::extensions::extended_table::texts(res.main_operation_statistics_table.headers@) == main_headers(),
            res.main_operation_statistics_table.constraints@ == main_constraints(),
            res.main_operation_statistics_table.fixed_count == 3,
            res.main_operation_statistics_table.first_rendered_index == 3,
            res.main_operation_statistics_table.content@.len() == 0,
            crate::extensions::extended_table::texts(res.details_operation_statistics_table.headers@) == details_headers(),
            res.details_operation_statistics_table.constraints@ == details_constraints(),
            res.details_operation_statistics_table.fixed_count == 3,
            res.details_operation_statistics_table.first_rendered_index == 3,
            res.details_operation_statistics_table.content@.len() == 0,
            res.main_operation_statistics_table.rendered == 0,
            res.main_operation_statistics_table.selected == 0,
            res.main_operation_statistics_table.sorted_by == 0,
            res.main_operation_statistics_table.sort_order == SortOrder::Ascending,
            res.main_operation_statistics_table.table_state == (TableState { offset: 0, selected: None }),
            res.details_operation_statistics_table.rendered == 0,
            res.details_operation_statistics_table.selected == 0,
            res.details_operation_statistics_table.sorted_by == 0,
            res.details_operation_statistics_table.sort_order == SortOrder::Ascending,
            res.details_operation_statistics_table.table_state == (TableState { offset: 0, selected: None }),
    {
        let mh = strings_of(
            &[
                "Datetime", "Hash", "Nodes", "Delta", "Received", "Content Received",
                "Validation Started", "Preapply Started", "Preapply Finished",
                "Validation Finished", "Validation Length", "Sent", "Kind",
            ],
        );
        let mc = vec![
            Constraint::Min(22), Constraint::Min(9), Constraint::Min(8), Constraint::Min(9),
            Constraint::Min(11), Constraint::Min(19), Constraint::Min(21), Constraint::Min(19),
            Constraint::Min(20), Constraint::Min(22), Constraint::Min(20), Constraint::Min(9),
            Constraint::Min(19),
        ];
        assert(crate::extensions::extended_table::texts(mh@) =~= main_headers());
        assert(mc@ =~= main_constraints());
        let main_operation_statistics_table = ExtendedTable::new(mh, mc, 3);
        let dh = strings_of(
            &[
                "Node Id", "First Received", "First Content Received", "First Sent",
                "Received", "Content Received", "Sent",
            ],
        );
        let dc = vec![
            Constraint::Min(9), Constraint::Min(16), Constraint::Min(24), Constraint::Min(12),
            Constraint::Min(10), Constraint::Min(18), Constraint::Min(9),
        ];
        assert(crate::extensions::extended_table::texts(dh@) =~= details_headers());
        assert(dc@ =~= details_constraints());
        let details_operation_statistics_table = ExtendedTable::new(dh, dc, 3);
        OperationsStatisticsState {
            operations_statistics: TextMap::new(),
            main_operation_statistics_table,
            details_operation_statistics_table,
        }
    }
}

/// The rows of the main statistics table, one per operation in the order
/// given.
pub open spec fn statistics_rows(stats: Seq<(String, OperationStats)>) -> Seq<OperationStatsSortable> {
    stats.map_values(|p: (String, OperationStats)| p.1.sortable_of(p.0))
}

/// The details rows of an operation, one per node report.
pub open spec fn details_rows(stats: OperationStats) -> Seq<OperationDetailSortable> {
    stats.nodes@.map_values(|n: (String, OperationNodeStats)| OperationStats::detail_of(n))
}

/// The earliest of the first sending times of details rows; rows whose node
/// never sent the operation are passed over.
pub open spec fn earliest_first_sent(rows: Seq<OperationDetailSortable>) -> Option<i64>
    decreases rows.len(),
{
    if rows.len() == 0 {
        None
    } else {
        opt_min(earliest_first_sent(rows.drop_last()), rows.last().first_sent)
    }
}

/// The earliest first sending time over the details rows of node reports is
/// the earliest sending time over the reports.
proof fn lemma_earliest_first_sent(nodes: Seq<(String, OperationNodeStats)>)
    ensures
        earliest_first_sent(nodes.map_values(|n: (String, OperationNodeStats)| OperationStats::detail_of(n)))
            == earliest(nodes, NodeTimes::Sent),
    decreases nodes.len(),
{
    if nodes.len() > 0 {
        let rows = nodes.map_values(|n: (String, OperationNodeStats)| OperationStats::detail_of(n));
        lemma_earliest_first_sent(nodes.drop_last());
        assert(rows.drop_last() =~= nodes.drop_last().map_values(
            |n: (String, OperationNodeStats)| OperationStats::detail_of(n),
        ));
    }
}

/// The statistics row of an operation agrees with its details rows and with
/// the operation's own accessors: it counts one node per details row, its
/// sending time is the earliest first sending time among the details rows,
/// and its validation end and duration are `validation_ended` and
/// `validation_duration`.
pub proof fn lemma_row_agrees_with_details(stats: OperationStats, hash: String)
    requires
        stats.nodes@.len() <= usize::MAX,
    ensures
        stats.sortable_of(hash).nodes == details_rows(stats).len(),
        stats.sortable_of(hash).nodes == stats.nodes@.len(),
        stats.sortable_of(hash).sent == earliest_first_sent(details_rows(stats)),
        stats.sortable_of(hash).validation_finished == stats.finished(),
        stats.sortable_of(hash).validation_finished_delta == opt_sub(stats.finished(), stats.validation_started),
{
    lemma_earliest_first_sent(stats.nodes@);
}

/// Whether every difference of the statistics row of `stats` fits.
pub fn deltas_fit_exec(stats: &OperationStats) -> (res: bool)
    ensures
        res == stats.deltas_fit(),
{
    let received = earliest_of(stats.nodes.entries(), NodeTimes::Received);
    let sent = stats.first_sent();
    let content = earliest_of(stats.nodes.entries(), NodeTimes::ContentReceived);
    let started = stats.validation_started;
    let (finished, preapply_start, preapply_end) = match stats.validation_result {
        Some(r) => (Some(r.0), r.2, r.3),
        None => (None, None, None),
    };
    sub_fits_exec(sent, received) && sub_fits_exec(content, received) && sub_fits_exec(started, content)
        && sub_fits_exec(preapply_start, started) && sub_fits_exec(preapply_end, preapply_start)
        && sub_fits_exec(finished, started) && sub_fits_exec(sent, finished)
}

/// Whether every difference of the statistics rows of `stats` fits.
pub fn all_deltas_fit(stats: &Vec<(String, OperationStats)>) -> (res: bool)
    ensures
        res == (forall|i: int| 0 <= i < stats@.len() ==> (#[trigger] stats@[i]).1.deltas_fit()),
{
    let mut i: usize = 0;
    while i < stats.len()
        invariant
            i <= stats@.len(),
            forall|j: int| 0 <= j < i ==> (#[trigger] stats@[j]).1.deltas_fit(),
        decreases stats@.len() - i,
    {
        if !deltas_fit_exec(&stats[i].1) {
            return false;
        }
        i = i + 1;
    }
    true
}

/// Whether `a - b` stays within `i64` when both are present.
pub fn sub_fits_exec(a: Option<i64>, b: Option<i64>) -> (res: bool)
    ensures
        res == sub_fits(a, b),
{
    match a {
        Some(x) => match b {
            Some(y) => {
                let d = (x as i128) - (y as i128);
                i64::MIN as i128 <= d && d <= i64::MAX as i128
            },
            None => true,
        },
        None => true,
    }
}

/// `new` is `old` after taking the statistics `stats`.
pub open spec fn after_statistics(old: OperationsStatisticsState, stats: Seq<(String, OperationStats)>, delta_toggle: bool, new: OperationsStatisticsState) -> bool {
    &&& new.operations_statistics.entries@ == stats
    &&& new.main_operation_statistics_table.content@ == ordered_items(
        statistics_rows(stats),
        old.main_operation_statistics_table.sorted_by,
        old.main_operation_statistics_table.sort_order,
        delta_toggle,
    )
    &&& new.main_operation_statistics_table.same_layout(&old.main_operation_statistics_table)
    &&& new.details_operation_statistics_table == old.details_operation_statistics_table
}

/// The row selected after moving down (or up) in the main table.
pub open spec fn main_selection_target(old: OperationsStatisticsState, down: bool) -> int {
    let t = old.main_operation_statistics_table;
    let total = t.content@.len() as int;
    let sel = opt_index(t.table_state.selected);
    if down { next_index(total, sel) } else { previous_index(total, sel) }
}

/// The row selected after the move is a row of the table.
pub open spec fn main_selection_fits(old: OperationsStatisticsState, down: bool) -> bool {
    main_selection_target(old, down) < old.main_operation_statistics_table.content@.len()
}

/// `new` is `old` after moving the selection of the main table.
pub open spec fn after_main_selection(old: OperationsStatisticsState, down: bool, new: OperationsStatisticsState) -> bool {
    let t = old.main_operation_statistics_table;
    let i = main_selection_target(old, down);
    let hash = t.content@[i].hash@;
    &&& new.main_operation_statistics_table == (ExtendedTable {
        table_state: TableState { selected: Some(i as usize), offset: t.table_state.offset },
        ..t
    })
    &&& old.operations_statistics@.contains_key(hash) ==>
        new.details_operation_statistics_table.content@ == details_rows(old.operations_statistics@[hash])
    &&& !old.operations_statistics@.contains_key(hash) ==>
        new.details_operation_statistics_table.content == old.details_operation_statistics_table.content
    &&& new.operations_statistics == old.operations_statistics
    &&& new.details_operation_statistics_table.same_layout(&old.details_operation_statistics_table)
}

impl OperationsStatisticsState {
    /// Takes the statistics of the operations the node reported: they are
    /// kept by hash and the main table shows one row per operation, sorted
    /// as the table is.
    pub fn statistics_received(&mut self, stats: Vec<(String, OperationStats)>, delta_toggle: bool)
        requires
            forall|i: int| 0 <= i < stats@.len() ==> (#[trigger] stats@[i]).1.deltas_fit(),
        ensures
            after_statistics(*old(self), stats@, delta_toggle, *final(self)),
    {
        let mut rows: Vec<OperationStatsSortable> = Vec::new();
        let mut i: usize = 0;
        while i < stats.len()
            invariant
                i <= stats@.len(),
                forall|j: int| 0 <= j < stats@.len() ==> (#[trigger] stats@[j]).1.deltas_fit(),
                rows@ == statistics_rows(stats@.take(i as int)),
            decreases stats@.len() - i,
        {
            let row = stats[i].1.to_statistics_sortable(stats[i].0.clone());
            rows.push(row);
            assert(rows@ =~= statistics_rows(stats@.take(i + 1)));
            i = i + 1;
        }
        assert(stats@.take(stats@.len() as int) =~= stats@);
        self.operations_statistics = TextMap { entries: stats };
        self.main_operation_statistics_table.content = rows;
        self.main_operation_statistics_table.sort_content(delta_toggle);
    }

    /// Moves the selection of the main table one row down (or up), wrapping
    /// around, and shows the node reports of the operation selected, where
    /// its statistics are known.
    pub fn move_main_selection(&mut self, down: bool)
        requires
            main_selection_fits(*old(self), down),
        ensures
            after_main_selection(*old(self), down, *final(self)),
    {
        let total = self.main_operation_statistics_table.content.len();
        let selected = self.main_operation_statistics_table.table_state.selected();
        let moved = if down { next_item(total, selected) } else { previous_item(total, selected) };
        self.main_operation_statistics_table.table_state.select(moved);
        match moved {
            Some(index) => {
                let hash = self.main_operation_statistics_table.content[index].hash.clone();
                match self.operations_statistics.get(hash.as_str()) {
                    Some(stats) => {
                        self.details_operation_statistics_table.content = stats.to_operations_details();
                    },
                    None => {},
                }
            },
            None => {},
        }
    }
}

/// Ask for the statistics of the operations in the mempool.
#[derive(Debug, Clone)]
pub struct OperationsStatisticsGetAction {}

/// The node reported the statistics of the operations, by hash.
#[derive(Debug, Clone)]
pub struct OperationsStatisticsReceivedAction {
    pub operations_statistics: Vec<(String, OperationStats)>,
}

} // verus!
