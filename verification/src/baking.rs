use vstd::prelude::*;
use vstd::multiset::Multiset;

use crate::extensions::extended_table::{Constraint, ExtendedTable, TableState, texts};
use crate::extensions::sorting::{opt_key, ordered_items, FocusKey, SortKey, SortKeyView};
use crate::extensions::{measured_from, row_view, shown_time, summary_row, summary_view, CellContent, CellStyle, CellText, Color, SortOrder, StyledTime, SummaryRow, TuiTableData};
use crate::level_map::{is_next_level, last_entries_win, lemma_last_entries_win_push, no_next_level, LevelMap};
use crate::operations::strings_of;
use crate::text_map::TextMap;
use crate::timing::{countdown_fits, is_next_right, max_unix_seconds, min_unix_seconds, next_right, next_right_at, Timestamp};

verus! {

/// When the steps of applying the protocol to a block started and ended.
#[derive(Debug, Clone, Copy, PartialEq, Eq, Structural)]
pub struct BlockApplicationProtocolStatistics {
    pub apply_start: u64,
    pub operations_decoding_start: u64,
    pub operations_decoding_end: u64,
    pub operations_metadata_encoding_start: u64,
    pub operations_metadata_encoding_end: u64,
    pub begin_application_start: u64,
    pub begin_application_end: u64,
    pub finalize_block_start: u64,
    pub finalize_block_end: u64,
    pub collect_new_rolls_owner_snapshots_start: u64,
    pub collect_new_rolls_owner_snapshots_end: u64,
    pub commit_start: u64,
    pub commit_end: u64,
    pub apply_end: u64,
}

/// When the node went through the steps of downloading and applying a block.
#[derive(Debug, Clone)]
pub struct BlockApplicationStatistics {
    pub block_hash: String,
    pub block_timestamp: u64,
    pub receive_timestamp: u64,
    pub baker: Option<String>,
    pub baker_priority: Option<u16>,
    pub download_block_header_start: Option<u64>,
    pub download_block_header_end: Option<u64>,
    pub download_block_operations_start: Option<u64>,
    pub download_block_operations_end: Option<u64>,
    pub load_data_start: Option<u64>,
    pub load_data_end: Option<u64>,
    pub precheck_start: Option<u64>,
    pub precheck_end: Option<u64>,
    pub apply_block_start: Option<u64>,
    pub apply_block_end: Option<u64>,
    pub store_result_start: Option<u64>,
    pub store_result_end: Option<u64>,
    pub send_start: Option<u64>,
    pub send_end: Option<u64>,
    pub protocol_times: Option<BlockApplicationProtocolStatistics>,
    pub injected: Option<u64>,
}

/// How long each step of downloading and applying a block took.
#[derive(Debug, Clone, Copy, PartialEq, Eq, Structural)]
pub struct BlockApplicationSummary {
    pub precheck: Option<u64>,
    pub send_data: Option<u64>,
    pub download: Option<u64>,
    pub download_block_header: Option<u64>,
    pub download_block_operations: Option<u64>,
    pub load_data: Option<u64>,
    pub protocol_apply_block: Option<u64>,
    pub apply: Option<u64>,
    pub apply_begin_application: Option<u64>,
    pub apply_decoding_operations: Option<u64>,
    pub apply_encoding_operations_metadata: Option<u64>,
    pub apply_collecting_new_rolls: Option<u64>,
    pub apply_commit: Option<u64>,
    pub store_data: Option<u64>,
    pub injected: Option<u64>,
}

/// `end - start` when both are known.
pub open spec fn span(start: Option<u64>, end: Option<u64>) -> Option<u64> {
    match start {
        Some(s) => match end {
            Some(e) => Some((e - s) as u64),
            None => None,
        },
        None => None,
    }
}

/// A step does not end before it starts, where both ends are known.
pub open spec fn span_ok(start: Option<u64>, end: Option<u64>) -> bool {
    match start {
        Some(s) => match end {
            Some(e) => s <= e,
            None => true,
        },
        None => true,
    }
}

pub fn span_of(start: Option<u64>, end: Option<u64>) -> (res: Option<u64>)
    requires
        span_ok(start, end),
    ensures
        res == span(start, end),
{
    match start {
        Some(s) => match end {
            Some(e) => Some(e - s),
            None => None,
        },
        None => None,
    }
}

impl BlockApplicationProtocolStatistics {
    /// No step of the protocol ends before it starts.
    pub open spec fn ordered(&self) -> bool {
        &&& self.apply_start <= self.apply_end
        &&& self.begin_application_start <= self.begin_application_end
        &&& self.operations_decoding_start <= self.operations_decoding_end
        &&& self.operations_metadata_encoding_start <= self.operations_metadata_encoding_end
        &&& self.collect_new_rolls_owner_snapshots_start <= self.collect_new_rolls_owner_snapshots_end
        &&& self.commit_start <= self.commit_end
    }
}

/// Whether a step does not end before it starts.
pub fn span_ok_exec(start: Option<u64>, end: Option<u64>) -> (res: bool)
    ensures
        res == span_ok(start, end),
{
    match start {
        Some(s) => match end {
            Some(e) => s <= e,
            None => true,
        },
        None => true,
    }
}

impl BlockApplicationStatistics {
    /// Whether no step ends before it starts.
    pub fn check_spans(&self) -> (res: bool)
        ensures
            res == self.spans_ok(),
    {
        let protocol = match self.protocol_times {
            Some(p) => {
                p.apply_start <= p.apply_end && p.begin_application_start <= p.begin_application_end
                    && p.operations_decoding_start <= p.operations_decoding_end
                    && p.operations_metadata_encoding_start <= p.operations_metadata_encoding_end
                    && p.collect_new_rolls_owner_snapshots_start <= p.collect_new_rolls_owner_snapshots_end
                    && p.commit_start <= p.commit_end
            },
            None => true,
        };
        span_ok_exec(self.precheck_start, self.precheck_end) && span_ok_exec(self.send_start, self.send_end)
            && span_ok_exec(self.download_block_header_start, self.download_block_operations_end)
            && span_ok_exec(self.download_block_header_start, self.download_block_header_end)
            && span_ok_exec(self.download_block_operations_start, self.download_block_operations_end)
            && span_ok_exec(self.load_data_start, self.load_data_end)
            && span_ok_exec(self.apply_block_start, self.apply_block_end)
            && span_ok_exec(self.store_result_start, self.store_result_end) && protocol
    }

    /// No step ends before it starts.
    pub open spec fn spans_ok(&self) -> bool {
        &&& span_ok(self.precheck_start, self.precheck_end)
        &&& span_ok(self.send_start, self.send_end)
        &&& span_ok(self.download_block_header_start, self.download_block_operations_end)
        &&& span_ok(self.download_block_header_start, self.download_block_header_end)
        &&& span_ok(self.download_block_operations_start, self.download_block_operations_end)
        &&& span_ok(self.load_data_start, self.load_data_end)
        &&& span_ok(self.apply_block_start, self.apply_block_end)
        &&& span_ok(self.store_result_start, self.store_result_end)
        &&& match self.protocol_times {
            Some(p) => p.ordered(),
            None => true,
        }
    }
}

/// The summary of a block's application measures each step from its start
/// to its end, known exactly where both are: the precheck, the sending, the
/// download as a whole (from the start of the header's download to the end
/// of the operations') and in its two parts, the loading, the application
/// and the storing; the steps of the protocol are measured where its times
/// are known; the injection time is kept as it is.
pub proof fn lemma_block_summary_measures_each_step(stats: BlockApplicationStatistics)
    requires
        stats.spans_ok(),
    ensures
        ({
            let s = BlockApplicationSummary::summary_of(stats);
            &&& measured_from(s.precheck, stats.precheck_end, stats.precheck_start)
            &&& measured_from(s.send_data, stats.send_end, stats.send_start)
            &&& measured_from(s.download, stats.download_block_operations_end, stats.download_block_header_start)
            &&& measured_from(s.download_block_header, stats.download_block_header_end, stats.download_block_header_start)
            &&& measured_from(s.download_block_operations, stats.download_block_operations_end,
                stats.download_block_operations_start)
            &&& measured_from(s.load_data, stats.load_data_end, stats.load_data_start)
            &&& measured_from(s.protocol_apply_block, stats.apply_block_end, stats.apply_block_start)
            &&& measured_from(s.store_data, stats.store_result_end, stats.store_result_start)
            &&& s.injected == stats.injected
            &&& (stats.protocol_times is None ==> {
                &&& s.apply is None && s.apply_begin_application is None
                &&& s.apply_decoding_operations is None && s.apply_encoding_operations_metadata is None
                &&& s.apply_collecting_new_rolls is None && s.apply_commit is None
            })
            &&& (stats.protocol_times matches Some(t) ==> {
                &&& measured_from(s.apply, Some(t.apply_end), Some(t.apply_start))
                &&& measured_from(s.apply_begin_application, Some(t.begin_application_end), Some(t.begin_application_start))
                &&& measured_from(s.apply_decoding_operations, Some(t.operations_decoding_end),
                    Some(t.operations_decoding_start))
                &&& measured_from(s.apply_encoding_operations_metadata, Some(t.operations_metadata_encoding_end),
                    Some(t.operations_metadata_encoding_start))
                &&& measured_from(s.apply_collecting_new_rolls, Some(t.collect_new_rolls_owner_snapshots_end),
                    Some(t.collect_new_rolls_owner_snapshots_start))
                &&& measured_from(s.apply_commit, Some(t.commit_end), Some(t.commit_start))
            })
        }),
{
}

/// The length of a step of the protocol, if its times are known.
pub open spec fn protocol_span(
    p: Option<BlockApplicationProtocolStatistics>,
    step: spec_fn(BlockApplicationProtocolStatistics) -> int,
) -> Option<u64> {
    match p {
        Some(t) => Some(step(t) as u64),
        None => None,
    }
}

impl BlockApplicationSummary {
    pub fn default() -> (res: BlockApplicationSummary)
        ensures
            res == BlockApplicationSummary::empty(),
    {
        BlockApplicationSummary {
            precheck: None,
            send_data: None,
            download: None,
            download_block_header: None,
            download_block_operations: None,
            load_data: None,
            protocol_apply_block: None,
            apply: None,
            apply_begin_application: None,
            apply_decoding_operations: None,
            apply_encoding_operations_metadata: None,
            apply_collecting_new_rolls: None,
            apply_commit: None,
            store_data: None,
            injected: None,
        }
    }

    /// The summary with nothing known.
    pub open spec fn empty() -> BlockApplicationSummary {
        BlockApplicationSummary {
            precheck: None,
            send_data: None,
            download: None,
            download_block_header: None,
            download_block_operations: None,
            load_data: None,
            protocol_apply_block: None,
            apply: None,
            apply_begin_application: None,
            apply_decoding_operations: None,
            apply_encoding_operations_metadata: None,
            apply_collecting_new_rolls: None,
            apply_commit: None,
            store_data: None,
            injected: None,
        }
    }

    /// The lengths of the steps recorded in `stats`.
    pub open spec fn summary_of(stats: BlockApplicationStatistics) -> BlockApplicationSummary {
        let p = stats.protocol_times;
        BlockApplicationSummary {
            precheck: span(stats.precheck_start, stats.precheck_end),
            send_data: span(stats.send_start, stats.send_end),
            download: span(stats.download_block_header_start, stats.download_block_operations_end),
            download_block_header: span(stats.download_block_header_start, stats.download_block_header_end),
            download_block_operations: span(stats.download_block_operations_start, stats.download_block_operations_end),
            load_data: span(stats.load_data_start, stats.load_data_end),
            protocol_apply_block: span(stats.apply_block_start, stats.apply_block_end),
            apply: protocol_span(p, |t: BlockApplicationProtocolStatistics| t.apply_end - t.apply_start),
            apply_begin_application: protocol_span(p, |t: BlockApplicationProtocolStatistics| t.begin_application_end - t.begin_application_start),
            apply_decoding_operations: protocol_span(p, |t: BlockApplicationProtocolStatistics| t.operations_decoding_end - t.operations_decoding_start),
            apply_encoding_operations_metadata: protocol_span(p, |t: BlockApplicationProtocolStatistics| t.operations_metadata_encoding_end - t.operations_metadata_encoding_start),
            apply_collecting_new_rolls: protocol_span(p, |t: BlockApplicationProtocolStatistics| t.collect_new_rolls_owner_snapshots_end - t.collect_new_rolls_owner_snapshots_start),
            apply_commit: protocol_span(p, |t: BlockApplicationProtocolStatistics| t.commit_end - t.commit_start),
            store_data: span(stats.store_result_start, stats.store_result_end),
            injected: stats.injected,
        }
    }

    /// The lengths of the steps recorded in `stats`.
    pub fn from(stats: &BlockApplicationStatistics) -> (res: BlockApplicationSummary)
        requires
            stats.spans_ok(),
        ensures
            res == Self::summary_of(*stats),
    {
        let (apply, begin, decoding, encoding, rolls, commit) = match stats.protocol_times {
            Some(t) => (
                Some(t.apply_end - t.apply_start),
                Some(t.begin_application_end - t.begin_application_start),
                Some(t.operations_decoding_end - t.operations_decoding_start),
                Some(t.operations_metadata_encoding_end - t.operations_metadata_encoding_start),
                Some(t.collect_new_rolls_owner_snapshots_end - t.collect_new_rolls_owner_snapshots_start),
                Some(t.commit_end - t.commit_start),
            ),
            None => (None, None, None, None, None, None),
        };
        BlockApplicationSummary {
            precheck: span_of(stats.precheck_start, stats.precheck_end),
            send_data: span_of(stats.send_start, stats.send_end),
            download: span_of(stats.download_block_header_start, stats.download_block_operations_end),
            download_block_header: span_of(stats.download_block_header_start, stats.download_block_header_end),
            download_block_operations: span_of(stats.download_block_operations_start, stats.download_block_operations_end),
            load_data: span_of(stats.load_data_start, stats.load_data_end),
            protocol_apply_block: span_of(stats.apply_block_start, stats.apply_block_end),
            apply,
            apply_begin_application: begin,
            apply_decoding_operations: decoding,
            apply_encoding_operations_metadata: encoding,
            apply_collecting_new_rolls: rolls,
            apply_commit: commit,
            store_data: span_of(stats.store_result_start, stats.store_result_end),
            injected: stats.injected,
        }
    }
}

/// An optional time in nanoseconds, widened.
pub open spec fn wide(o: Option<u64>) -> Option<i128> {
    match o {
        Some(v) => Some(v as i128),
        None => None,
    }
}

fn widened(o: Option<u64>) -> (res: Option<i128>)
    ensures
        res == wide(o),
{
    match o {
        Some(v) => Some(v as i128),
        None => None,
    }
}

/// A summary row of a time in nanoseconds.
pub open spec fn time_row(prefix: Seq<char>, label: Seq<char>, value: Option<u64>) -> (Seq<char>, Seq<char>, StyledTime) {
    (prefix, label, StyledTime::styled(wide(value)))
}

/// The rows of the application summary after the download: loading the
/// data, the protocol's steps as a tree, and storing the result.
pub open spec fn application_rows(s: BlockApplicationSummary) -> Seq<(Seq<char>, Seq<char>, StyledTime)> {
    seq![
        time_row(""@, "Load Data"@, s.load_data),
        time_row(""@, "Protocol Apply Block"@, s.protocol_apply_block),
        time_row("\u{2514}\u{2500} "@, "Apply"@, s.apply),
        time_row("   \u{251c}\u{2500} "@, "Begin application"@, s.apply_begin_application),
        time_row("   \u{251c}\u{2500} "@, "Decoding operations"@, s.apply_decoding_operations),
        time_row("   \u{251c}\u{2500} "@, "Encoding operations metadata"@, s.apply_encoding_operations_metadata),
        time_row("   \u{251c}\u{2500} "@, "Collecting new rolls"@, s.apply_collecting_new_rolls),
        time_row("   \u{2514}\u{2500} "@, "Commit"@, s.apply_commit),
        time_row(""@, "Store application result"@, s.store_data),
    ]
}

/// The rows of the application summary: the download with its two parts,
/// then the application.
pub open spec fn block_summary_rows(s: BlockApplicationSummary) -> Seq<(Seq<char>, Seq<char>, StyledTime)> {
    seq![
        time_row(""@, "Download"@, s.download),
        time_row("\u{251c}\u{2500} "@, "Block Header"@, s.download_block_header),
        time_row("\u{2514}\u{2500} "@, "Block Operations"@, s.download_block_operations),
    ] + application_rows(s)
}

fn push_time_row(out: &mut Vec<SummaryRow>, prefix: &str, label: &str, value: Option<u64>)
    ensures
        summary_view(final(out)@) == summary_view(old(out)@).push(time_row(prefix@, label@, value)),
{
    let row = summary_row(prefix, label, widened(value));
    out.push(row);
    assert(summary_view(out@) =~= summary_view(old(out)@).push(time_row(prefix@, label@, value)));
}

impl BlockApplicationSummary {
    fn push_application_rows(&self, out: &mut Vec<SummaryRow>)
        ensures
            summary_view(final(out)@) == summary_view(old(out)@) + application_rows(*self),
    {
        push_time_row(out, "", "Load Data", self.load_data);
        push_time_row(out, "", "Protocol Apply Block", self.protocol_apply_block);
        push_time_row(out, "\u{2514}\u{2500} ", "Apply", self.apply);
        push_time_row(out, "   \u{251c}\u{2500} ", "Begin application", self.apply_begin_application);
        push_time_row(out, "   \u{251c}\u{2500} ", "Decoding operations", self.apply_decoding_operations);
        push_time_row(out, "   \u{251c}\u{2500} ", "Encoding operations metadata", self.apply_encoding_operations_metadata);
        push_time_row(out, "   \u{251c}\u{2500} ", "Collecting new rolls", self.apply_collecting_new_rolls);
        push_time_row(out, "   \u{2514}\u{2500} ", "Commit", self.apply_commit);
        push_time_row(out, "", "Store application result", self.store_data);
        assert(summary_view(out@) =~= summary_view(old(out)@) + application_rows(*self));
    }

    /// The rows of the summary table: each step of downloading and applying
    /// the block with its time.
    pub fn to_table_data(&self) -> (res: Vec<SummaryRow>)
        ensures
            summary_view(res@) == block_summary_rows(*self),
    {
        let mut out: Vec<SummaryRow> = Vec::new();
        push_time_row(&mut out, "", "Download", self.download);
        push_time_row(&mut out, "\u{251c}\u{2500} ", "Block Header", self.download_block_header);
        push_time_row(&mut out, "\u{2514}\u{2500} ", "Block Operations", self.download_block_operations);
        self.push_application_rows(&mut out);
        assert(summary_view(out@) =~= block_summary_rows(*self));
        out
    }
}

/// What one peer reported about a block.
#[derive(Debug)]
pub struct PerPeerBlockStatistics {
    pub address: String,
    pub block_hash: String,
    pub node_id: String,
    pub received_time: Option<u64>,
    pub sent_time: Option<u64>,
    pub sent_end_time: Option<u64>,
    pub sent_start_time: Option<u64>,
    pub get_operations_recv_end_time: Option<u64>,
    pub get_operations_recv_start_time: Option<u64>,
    pub operations_send_start_time: Option<u64>,
    pub operations_send_end_time: Option<u64>,
}

pub type PerPeerBlockStatisticsVector = Vec<PerPeerBlockStatistics>;

impl Clone for PerPeerBlockStatistics {
    fn clone(&self) -> (res: Self)
        ensures
            res == *self,
    {
        PerPeerBlockStatistics {
            address: self.address.clone(),
            block_hash: self.block_hash.clone(),
            node_id: self.node_id.clone(),
            received_time: self.received_time,
            sent_time: self.sent_time,
            sent_end_time: self.sent_end_time,
            sent_start_time: self.sent_start_time,
            get_operations_recv_end_time: self.get_operations_recv_end_time,
            get_operations_recv_start_time: self.get_operations_recv_start_time,
            operations_send_start_time: self.operations_send_start_time,
            operations_send_end_time: self.operations_send_end_time,
        }
    }
}

/// A copy of the reports of the peers.
pub fn clone_peer_statistics(v: &Vec<PerPeerBlockStatistics>) -> (res: Vec<PerPeerBlockStatistics>)
    ensures
        res@ == v@,
{
    let mut res: Vec<PerPeerBlockStatistics> = Vec::new();
    let mut i: usize = 0;
    while i < v.len()
        invariant
            i <= v@.len(),
            res@ == v@.take(i as int),
        decreases v@.len() - i,
    {
        res.push(v[i].clone());
        assert(res@ =~= v@.take(i + 1));
        i = i + 1;
    }
    assert(v@.take(v@.len() as int) =~= v@);
    res
}

/// An optional unsigned time as a wide integer.
pub open spec fn wide_u64(o: Option<u64>) -> Option<int> {
    match o {
        Some(v) => Some(v as int),
        None => None,
    }
}

pub fn u64_time_key(o: Option<u64>) -> (k: SortKey)
    ensures
        k@ == opt_key(wide_u64(o)),
{
    match o {
        Some(v) => SortKey::Int(v as i128),
        None => SortKey::Int(-0x1_0000_0000_0000_0000i128),
    }
}

impl FocusKey for PerPeerBlockStatistics {
    open spec fn key_columns() -> nat {
        6
    }

    open spec fn focus_key(&self, focus_index: usize, delta_toggle: bool) -> SortKeyView {
        if focus_index == 0 {
            SortKeyView::Text(self.address@)
        } else if focus_index == 1 {
            SortKeyView::Text(self.node_id@)
        } else if focus_index == 2 {
            opt_key(wide_u64(self.received_time))
        } else if focus_index == 3 {
            opt_key(wide_u64(self.sent_time))
        } else if focus_index == 4 {
            opt_key(wide_u64(self.get_operations_recv_end_time))
        } else {
            opt_key(wide_u64(self.operations_send_end_time))
        }
    }

    fn key_column_count() -> (n: usize) {
        6
    }

    fn focus_key_exec(&self, focus_index: usize, delta_toggle: bool) -> (k: SortKey) {
        if focus_index == 0 {
            SortKey::Text(self.address.clone())
        } else if focus_index == 1 {
            SortKey::Text(self.node_id.clone())
        } else if focus_index == 2 {
            u64_time_key(self.received_time)
        } else if focus_index == 3 {
            u64_time_key(self.sent_time)
        } else if focus_index == 4 {
            u64_time_key(self.get_operations_recv_end_time)
        } else {
            u64_time_key(self.operations_send_end_time)
        }
    }
}

/// The cell of an optional time in the peer table: the time, or a spaced dash.
pub open spec fn peer_time_cell(o: Option<u64>) -> (CellText, CellStyle) {
    match o {
        Some(v) => (CellText::Duration(v as int), CellStyle::dimmed(Color::Gray)),
        None => (CellText::Text(" - "@), CellStyle::dimmed(Color::Gray)),
    }
}

pub fn peer_time(o: Option<u64>) -> (res: (CellContent, CellStyle))
    ensures
        (res.0@, res.1) == peer_time_cell(o),
{
    let style = CellStyle { fg: Some(Color::Gray), bg: None, dim: true };
    match o {
        Some(v) => (CellContent::Duration(v as i128), style),
        None => (CellContent::Text(String::from_str(" - ")), style),
    }
}

impl TuiTableData for PerPeerBlockStatistics {
    open spec fn table_row(&self, delta_toggle: bool) -> Seq<(CellText, CellStyle)> {
        let style = CellStyle::dimmed(Color::Gray);
        seq![
            (CellText::Text(self.address@), style),
            (CellText::Text(self.node_id@), style),
            peer_time_cell(self.received_time),
            peer_time_cell(self.sent_end_time),
            peer_time_cell(self.get_operations_recv_end_time),
            peer_time_cell(self.operations_send_end_time),
        ]
    }

    fn construct_tui_table_data(&self, delta_toggle: bool) -> (res: Vec<(CellContent, CellStyle)>) {
        let style = CellStyle { fg: Some(Color::Gray), bg: None, dim: true };
        let mut v: Vec<(CellContent, CellStyle)> = Vec::new();
        v.push((CellContent::Text(self.address.clone()), style));
        v.push((CellContent::Text(self.node_id.clone()), style));
        v.push(peer_time(self.received_time));
        v.push(peer_time(self.sent_end_time));
        v.push(peer_time(self.get_operations_recv_end_time));
        v.push(peer_time(self.operations_send_end_time));
        assert(row_view(v@) =~= self.table_row(delta_toggle));
        v
    }
}

/// Each column of the peer table is sorted by what it shows: address and
/// node id by their text, and the times of receipt, of the operations
/// asked for and of the operations sent by the time the cell shows, where a
/// missing time sorts before every time. The column of the block header's
/// sending shows when the sending ended and is sorted by when it started.
pub proof fn lemma_peer_columns_sort_by_what_they_show(row: PerPeerBlockStatistics, delta_toggle: bool)
    ensures
        row.focus_key(0, delta_toggle) matches SortKeyView::Text(t)
            && row.table_row(delta_toggle)[0].0 == CellText::Text(t),
        row.focus_key(1, delta_toggle) matches SortKeyView::Text(t)
            && row.table_row(delta_toggle)[1].0 == CellText::Text(t),
        row.focus_key(2, delta_toggle) == opt_key(shown_time(row.table_row(delta_toggle)[2].0)),
        row.focus_key(3, delta_toggle) == opt_key(wide_u64(row.sent_time)),
        row.table_row(delta_toggle)[3].0 == peer_time_cell(row.sent_end_time).0,
        row.focus_key(4, delta_toggle) == opt_key(shown_time(row.table_row(delta_toggle)[4].0)),
        row.focus_key(5, delta_toggle) == opt_key(shown_time(row.table_row(delta_toggle)[5].0)),
{
}

/// The smaller of two optional values; an absent value is ignored.
pub open spec fn opt_min_u64(a: Option<u64>, b: Option<u64>) -> Option<u64> {
    match a {
        None => b,
        Some(x) => match b {
            None => Some(x),
            Some(y) => if y < x {
                Some(y)
            } else {
                Some(x)
            },
        },
    }
}

/// The earliest of the known values of one time over all peer reports,
/// leaving out zeros when `skip_zero` holds.
pub open spec fn earliest_peer_time(
    s: Seq<PerPeerBlockStatistics>,
    f: spec_fn(PerPeerBlockStatistics) -> Option<u64>,
    skip_zero: bool,
) -> Option<u64>
    decreases s.len(),
{
    if s.len() == 0 {
        None
    } else {
        let rest = earliest_peer_time(s.drop_last(), f, skip_zero);
        match f(s.last()) {
            Some(v) => if skip_zero && v == 0 {
                rest
            } else {
                opt_min_u64(rest, Some(v))
            },
            None => rest,
        }
    }
}

/// Which time of a peer report is meant.
pub enum PeerTime {
    SentEnd,
    OperationsRequested,
    OperationsSent,
    Received,
}

pub open spec fn peer_time_of(which: PeerTime) -> spec_fn(PerPeerBlockStatistics) -> Option<u64> {
    match which {
        PeerTime::SentEnd => |p: PerPeerBlockStatistics| p.sent_end_time,
        PeerTime::OperationsRequested => |p: PerPeerBlockStatistics| p.get_operations_recv_end_time,
        PeerTime::OperationsSent => |p: PerPeerBlockStatistics| p.operations_send_end_time,
        PeerTime::Received => |p: PerPeerBlockStatistics| p.received_time,
    }
}

/// The earliest known time of one kind over all peer reports.
pub fn earliest_peer_time_of(stats: &Vec<PerPeerBlockStatistics>, which: PeerTime, skip_zero: bool) -> (res: Option<u64>)
    ensures
        res == earliest_peer_time(stats@, peer_time_of(which), skip_zero),
{
    let ghost f = peer_time_of(which);
    let mut res: Option<u64> = None;
    let mut i: usize = 0;
    while i < stats.len()
        invariant
            i <= stats@.len(),
            f == peer_time_of(which),
            res == earliest_peer_time(stats@.take(i as int), f, skip_zero),
        decreases stats@.len() - i,
    {
        let ghost t = stats@.take(i + 1);
        assert(t.drop_last() =~= stats@.take(i as int));
        assert(t.last() == stats@[i as int]);
        let p = &stats[i];
        let v = match which {
            PeerTime::SentEnd => p.sent_end_time,
            PeerTime::OperationsRequested => p.get_operations_recv_end_time,
            PeerTime::OperationsSent => p.operations_send_end_time,
            PeerTime::Received => p.received_time,
        };
        assert(v == f(stats@[i as int]));
        match v {
            Some(x) => {
                if !(skip_zero && x == 0) {
                    res = match res {
                        None => Some(x),
                        Some(y) => if x < y {
                            Some(x)
                        } else {
                            Some(y)
                        },
                    };
                }
            },
            None => {},
        }
        i = i + 1;
    }
    assert(stats@.take(stats@.len() as int) =~= stats@);
    res
}

/// When the peers first saw the block header and operations.
#[derive(Debug, Clone, Copy, PartialEq, Eq, Structural)]
pub struct ApplicationSummary {
    pub send_block_header: Option<u64>,
    pub block_operations_requested: Option<u64>,
    pub block_operations_sent: Option<u64>,
    pub block_header_received_back: Option<u64>,
}

impl ApplicationSummary {
    /// The earliest times over the peer reports; a received time of zero
    /// does not count.
    pub open spec fn summary_of(stats: Seq<PerPeerBlockStatistics>) -> ApplicationSummary {
        ApplicationSummary {
            send_block_header: earliest_peer_time(stats, peer_time_of(PeerTime::SentEnd), false),
            block_operations_requested: earliest_peer_time(stats, peer_time_of(PeerTime::OperationsRequested), false),
            block_operations_sent: earliest_peer_time(stats, peer_time_of(PeerTime::OperationsSent), false),
            block_header_received_back: earliest_peer_time(stats, peer_time_of(PeerTime::Received), true),
        }
    }

    pub fn from(stats: &Vec<PerPeerBlockStatistics>) -> (res: ApplicationSummary)
        ensures
            res == Self::summary_of(stats@),
    {
        ApplicationSummary {
            send_block_header: earliest_peer_time_of(stats, PeerTime::SentEnd, false),
            block_operations_requested: earliest_peer_time_of(stats, PeerTime::OperationsRequested, false),
            block_operations_sent: earliest_peer_time_of(stats, PeerTime::OperationsSent, false),
            block_header_received_back: earliest_peer_time_of(stats, PeerTime::Received, true),
        }
    }
}

/// `m` is the least of the times that `f` gives over the reports `s`,
/// leaving out zeros where `skip_zero` holds: one of them, and at most each
/// of them; `None` exactly where none is given.
pub open spec fn is_least_peer_time(
    s: Seq<PerPeerBlockStatistics>,
    f: spec_fn(PerPeerBlockStatistics) -> Option<u64>,
    skip_zero: bool,
    m: Option<u64>,
) -> bool {
    match m {
        Some(v) => {
            &&& !(skip_zero && v == 0)
            &&& exists|j: int| 0 <= j < s.len() && #[trigger] f(s[j]) == Some(v)
            &&& forall|j: int| 0 <= j < s.len() && #[trigger] f(s[j]) is Some && !(skip_zero && f(s[j])->0 == 0)
                ==> v <= f(s[j])->0
        },
        None => forall|j: int| 0 <= j < s.len() ==> (#[trigger] f(s[j]) is None || (skip_zero && f(s[j]) == Some(0u64))),
    }
}

/// The earliest time over the peer reports is their least time.
proof fn lemma_earliest_peer_time_is_least(
    s: Seq<PerPeerBlockStatistics>,
    f: spec_fn(PerPeerBlockStatistics) -> Option<u64>,
    skip_zero: bool,
)
    ensures
        is_least_peer_time(s, f, skip_zero, earliest_peer_time(s, f, skip_zero)),
    decreases s.len(),
{
    if s.len() > 0 {
        let d = s.drop_last();
        lemma_earliest_peer_time_is_least(d, f, skip_zero);
        assert forall|j: int| 0 <= j < d.len() implies #[trigger] s[j] == d[j] by {}
        let rest = earliest_peer_time(d, f, skip_zero);
        let last = s.len() - 1;
        assert(s[last] == s.last());
        match rest {
            Some(v) => {
                let j0 = choose|j: int| 0 <= j < d.len() && #[trigger] f(d[j]) == Some(v);
                assert(f(s[j0]) == Some(v));
            },
            None => {},
        }
        match f(s.last()) {
            Some(w) => {},
            None => {},
        }
        let m = earliest_peer_time(s, f, skip_zero);
        assert forall|j: int| 0 <= j < s.len() && #[trigger] f(s[j]) is Some && !(skip_zero && f(s[j])->0 == 0)
            implies (m matches Some(v) && v <= f(s[j])->0) by {
            if j < last {
                assert(f(d[j]) == f(s[j]));
            }
        }
    }
}

/// The summary of the peers takes, for each step, the earliest time at which
/// a peer reported it: the end of sending the block header, of receiving
/// the operations request and of sending the operations, and the receipt of
/// the block, where a received time of zero does not count.
pub proof fn lemma_summary_takes_the_earliest_times(stats: Seq<PerPeerBlockStatistics>)
    ensures
        is_least_peer_time(stats, |p: PerPeerBlockStatistics| p.sent_end_time, false,
            ApplicationSummary::summary_of(stats).send_block_header),
        is_least_peer_time(stats, |p: PerPeerBlockStatistics| p.get_operations_recv_end_time, false,
            ApplicationSummary::summary_of(stats).block_operations_requested),
        is_least_peer_time(stats, |p: PerPeerBlockStatistics| p.operations_send_end_time, false,
            ApplicationSummary::summary_of(stats).block_operations_sent),
        is_least_peer_time(stats, |p: PerPeerBlockStatistics| p.received_time, true,
            ApplicationSummary::summary_of(stats).block_header_received_back),
{
    lemma_earliest_peer_time_is_least(stats, peer_time_of(PeerTime::SentEnd), false);
    lemma_earliest_peer_time_is_least(stats, peer_time_of(PeerTime::OperationsRequested), false);
    lemma_earliest_peer_time_is_least(stats, peer_time_of(PeerTime::OperationsSent), false);
    lemma_earliest_peer_time_is_least(stats, peer_time_of(PeerTime::Received), true);
    assert(peer_time_of(PeerTime::SentEnd) =~= |p: PerPeerBlockStatistics| p.sent_end_time);
    assert(peer_time_of(PeerTime::OperationsRequested) =~= |p: PerPeerBlockStatistics| p.get_operations_recv_end_time);
    assert(peer_time_of(PeerTime::OperationsSent) =~= |p: PerPeerBlockStatistics| p.operations_send_end_time);
    assert(peer_time_of(PeerTime::Received) =~= |p: PerPeerBlockStatistics| p.received_time);
}

/// The summary of the last block that the baker baked.
#[derive(Debug)]
pub struct BakingSummary {
    pub level: i32,
    pub injected: Option<u64>,
    pub block_application_summary: BlockApplicationSummary,
    pub per_peer: PerPeerBlockStatisticsVector,
}

impl BakingSummary {
    /// The summary before any block was baked.
    pub fn default() -> (res: BakingSummary)
        ensures
            res.level == 0,
            res.injected is None,
            res.block_application_summary == BlockApplicationSummary::empty(),
            res.per_peer@.len() == 0,
    {
        BakingSummary {
            level: 0,
            injected: None,
            block_application_summary: BlockApplicationSummary::default(),
            per_peer: Vec::new(),
        }
    }

    /// The summary of a baked block; the injection time is taken relative to
    /// the timestamp of the previous block, cut to 64 bits.
    pub fn new(
        level: i32,
        previous_head_timestamp: Timestamp,
        block_application_summary: BlockApplicationSummary,
        per_peer: PerPeerBlockStatisticsVector,
    ) -> (res: BakingSummary)
        requires
            previous_head_timestamp.valid(),
        ensures
            res.level == level,
            res.injected == (match block_application_summary.injected {
                Some(t) => Some((t - previous_head_timestamp.nanos()) as u64),
                None => None,
            }),
            res.block_application_summary == block_application_summary,
            res.per_peer == per_peer,
    {
        let injected = match block_application_summary.injected {
            Some(injected_timestamp) => {
                let previous = previous_head_timestamp.unix_timestamp_nanos();
                Some(#[verifier::truncate] ((injected_timestamp as i128 - previous) as u64))
            },
            None => None,
        };
        BakingSummary { level, injected, block_application_summary, per_peer }
    }
}

impl ApplicationSummary {
    /// Adds the row of the first block header sent to the summary rows.
    pub fn extend_table_data(&self, table_data: &mut Vec<SummaryRow>)
        ensures
            summary_view(final(table_data)@) == summary_view(old(table_data)@).push(
                time_row(""@, "Send Block Header"@, self.send_block_header),
            ),
    {
        push_time_row(table_data, "", "Send Block Header", self.send_block_header);
    }
}

/// The rows of the summary of a baked block: its injection, its application,
/// and when the peers first saw it.
pub open spec fn baking_summary_rows(b: BakingSummary) -> Seq<(Seq<char>, Seq<char>, StyledTime)> {
    let a = ApplicationSummary::summary_of(b.per_peer@);
    seq![time_row(""@, "Injected"@, b.injected)] + application_rows(b.block_application_summary) + seq![
        time_row(""@, "Block Header Sent"@, a.send_block_header),
        time_row(""@, "Block Header Received Back"@, a.block_header_received_back),
        time_row(""@, "Block Operations Requested"@, a.block_operations_requested),
        time_row(""@, "Block Operations Sent"@, a.block_operations_sent),
    ]
}

impl BakingSummary {
    /// The rows of the summary table: the injection in place of the
    /// download, the application, and the times the peers report.
    pub fn to_table_data(&self) -> (res: Vec<SummaryRow>)
        ensures
            summary_view(res@) == baking_summary_rows(*self),
    {
        let a = ApplicationSummary::from(&self.per_peer);
        let mut out: Vec<SummaryRow> = Vec::new();
        push_time_row(&mut out, "", "Injected", self.injected);
        self.block_application_summary.push_application_rows(&mut out);
        push_time_row(&mut out, "", "Block Header Sent", a.send_block_header);
        push_time_row(&mut out, "", "Block Header Received Back", a.block_header_received_back);
        push_time_row(&mut out, "", "Block Operations Requested", a.block_operations_requested);
        push_time_row(&mut out, "", "Block Operations Sent", a.block_operations_sent);
        assert(summary_view(out@) =~= baking_summary_rows(*self));
        out
    }
}

/// `perc` percent of `val`, rounded down.
pub fn calculate_percentage(val: u16, perc: u16) -> (res: u16)
    requires
        val * perc <= u16::MAX,
    ensures
        res == (val * perc) / 100,
{
    (val * perc) / 100
}

/// The right of a delegate to bake a block at a level.
#[derive(Debug, Clone)]
pub struct BakingRightsPerLevel {
    pub level: i32,
    pub priority: u64,
    pub delegate: String,
    pub estimated_time: Option<Timestamp>,
}

/// The levels at which the baker may bake, with the estimated times.
#[derive(Debug)]
pub struct BakingRights {
    pub rights: LevelMap<Option<Timestamp>>,
}

/// The map after each right of `raw` was recorded in turn.
pub open spec fn with_baking_rights(m: Map<int, Option<Timestamp>>, raw: Seq<BakingRightsPerLevel>) -> Map<int, Option<Timestamp>>
    decreases raw.len(),
{
    if raw.len() == 0 {
        m
    } else {
        with_baking_rights(m, raw.drop_last()).insert(raw.last().level as int, raw.last().estimated_time)
    }
}

/// Recording rights gives each level the estimated time of its last right
/// and keeps the levels that no right names as they were.
pub proof fn lemma_baking_rights_keep_the_last_time(m: Map<int, Option<Timestamp>>, raw: Seq<BakingRightsPerLevel>)
    ensures
        last_entries_win(
            m,
            raw.map_values(|r: BakingRightsPerLevel| (r.level as int, r.estimated_time)),
            with_baking_rights(m, raw),
        ),
    decreases raw.len(),
{
    let f = |r: BakingRightsPerLevel| (r.level as int, r.estimated_time);
    if raw.len() == 0 {
        assert(raw.map_values(f) =~= Seq::<(int, Option<Timestamp>)>::empty());
    } else {
        let d = raw.drop_last();
        lemma_baking_rights_keep_the_last_time(m, d);
        assert(raw.map_values(f) =~= d.map_values(f).push(f(raw.last())));
        lemma_last_entries_win_push(m, d.map_values(f), with_baking_rights(m, d), f(raw.last()));
    }
}

impl BakingRights {
    pub fn default() -> (res: BakingRights)
        ensures
            res.rights@ == Map::<int, Option<Timestamp>>::empty(),
    {
        BakingRights { rights: LevelMap::new() }
    }

    /// The rights of `raw`, each level with its estimated time; for a level
    /// given twice the later entry counts.
    pub fn new(raw: &Vec<BakingRightsPerLevel>) -> (res: BakingRights)
        ensures
            res.rights@ == with_baking_rights(Map::empty(), raw@),
    {
        let mut res = BakingRights::default();
        res.add(raw);
        res
    }

    /// Records the rights of `raw`.
    pub fn add(&mut self, raw: &Vec<BakingRightsPerLevel>)
        ensures
            final(self).rights@ == with_baking_rights(old(self).rights@, raw@),
    {
        let ghost start = self.rights@;
        let mut i: usize = 0;
        while i < raw.len()
            invariant
                i <= raw@.len(),
                self.rights@ == with_baking_rights(start, raw@.take(i as int)),
            decreases raw@.len() - i,
        {
            assert(raw@.take(i + 1).drop_last() =~= raw@.take(i as int));
            self.rights.insert(raw[i].level, raw[i].estimated_time);
            i = i + 1;
        }
        assert(raw@.take(raw@.len() as int) =~= raw@);
    }

    /// Forgets the rights of the levels before `level`.
    pub fn cleanup(&mut self, level: &i32)
        ensures
            final(self).rights@ == old(self).rights@.restrict(
                old(self).rights@.dom().filter(|k: int| k >= *level),
            ),
    {
        self.rights.retain_from(*level);
    }

    /// The first level at or after `level` at which the baker may bake.
    pub fn next_baking_level(&self, level: i32) -> (res: Option<i32>)
        ensures
            match res {
                Some(k) => is_next_level(self.rights@, level as int, k as int),
                None => no_next_level(self.rights@, level as int),
            },
    {
        match self.rights.next_from(level) {
            Some(e) => Some(e.0),
            None => None,
        }
    }

    /// The first level at or after `level` at which the baker may bake, with
    /// how long until then as seen at the Unix second `now` when its time is
    /// known, counting `block_delay` seconds per level from the block timestamp.
    pub fn next_baking_at(&self, level: i32, block_timestamp: &Timestamp, block_delay: i32, now: i64) -> (res: Option<(i32, String)>)
        requires
            block_timestamp.valid(),
            min_unix_seconds() <= now <= max_unix_seconds(),
            countdown_fits(self.rights@, level as int, block_delay as int),
        ensures
            is_next_right(self.rights@, level as int, *block_timestamp, block_delay as int, now as int, res),
    {
        next_right_at(&self.rights, level, block_timestamp, block_delay, now)
    }

    /// As `next_baking_at`, with the clock read for now: whatever time the
    /// clock gives, the text is the countdown seen at some second of it.
    pub fn next_baking(&self, level: i32, block_timestamp: &Timestamp, block_delay: i32) -> (res: Option<(i32, String)>)
        requires
            block_timestamp.valid(),
            countdown_fits(self.rights@, level as int, block_delay as int),
        ensures
            exists|now: int| min_unix_seconds() <= now <= max_unix_seconds()
                && #[trigger] is_next_right(self.rights@, level as int, *block_timestamp, block_delay as int, now, res),
    {
        next_right(&self.rights, level, block_timestamp, block_delay)
    }
}

/// The baking screen: statistics of recent blocks, the peer table, the rights
/// and the summary of the last baked block.
#[derive(Debug)]
pub struct BakingState {
    pub application_statistics: TextMap<BlockApplicationStatistics>,
    pub per_peer_block_statistics: TextMap<PerPeerBlockStatisticsVector>,
    pub baking_table: ExtendedTable<PerPeerBlockStatisticsVector>,
    pub baking_rights: BakingRights,
    pub last_baking_summary: BakingSummary,
    pub last_baked_block_level: Option<i32>,
    pub last_baked_block_hash: Option<String>,
}

/// The column headers of the peer table.
pub open spec fn baking_headers() -> Seq<Seq<char>> {
    seq!["Address"@, "Node Id"@, "Header Received"@, "Header Sent"@, "OP Requested"@, "OP Sent"@]
}

/// The column constraints of the peer table.
pub open spec fn baking_constraints() -> Seq<Constraint> {
    seq![
        Constraint::Length(22), Constraint::Length(30), Constraint::Min(17),
        Constraint::Min(13), Constraint::Min(14), Constraint::Min(9),
    ]
}

/// The statistics by block hash after each of `stats` was recorded in turn.
pub open spec fn with_application_statistics(
    m: Map<Seq<char>, BlockApplicationStatistics>,
    stats: Seq<BlockApplicationStatistics>,
) -> Map<Seq<char>, BlockApplicationStatistics>
    decreases stats.len(),
{
    if stats.len() == 0 {
        m
    } else {
        with_application_statistics(m, stats.drop_last()).insert(stats.last().block_hash@, stats.last())
    }
}

/// Recording application statistics files each under its block's hash, the
/// last given for a hash winning, and keeps the statistics of other blocks.
pub proof fn lemma_application_statistics_keep_the_last(
    m: Map<Seq<char>, BlockApplicationStatistics>,
    stats: Seq<BlockApplicationStatistics>,
)
    ensures
        last_entries_win(
            m,
            stats.map_values(|b: BlockApplicationStatistics| (b.block_hash@, b)),
            with_application_statistics(m, stats),
        ),
    decreases stats.len(),
{
    let f = |b: BlockApplicationStatistics| (b.block_hash@, b);
    if stats.len() == 0 {
        assert(stats.map_values(f) =~= Seq::<(Seq<char>, BlockApplicationStatistics)>::empty());
    } else {
        let d = stats.drop_last();
        lemma_application_statistics_keep_the_last(m, d);
        assert(stats.map_values(f) =~= d.map_values(f).push(f(stats.last())));
        lemma_last_entries_win_push(m, d.map_values(f), with_application_statistics(m, d), f(stats.last()));
    }
}

/// `new` is `old` after recording the application statistics `stats`.
pub open spec fn after_application_statistics(old: BakingState, stats: Seq<BlockApplicationStatistics>, new: BakingState) -> bool {
    &&& new.application_statistics@ == with_application_statistics(old.application_statistics@, stats)
    &&& new.per_peer_block_statistics == old.per_peer_block_statistics
    &&& new.baking_table == old.baking_table
    &&& new.baking_rights == old.baking_rights
    &&& new.last_baking_summary == old.last_baking_summary
    &&& new.last_baked_block_level == old.last_baked_block_level
    &&& new.last_baked_block_hash == old.last_baked_block_hash
}

/// `new` is `old` after taking the peers' reports `stats`.
pub open spec fn after_per_peer_statistics(old: BakingState, stats: Seq<PerPeerBlockStatistics>, delta_toggle: bool, new: BakingState) -> bool {
    &&& stats.len() > 0 ==> {
        let h = stats[0].block_hash@;
        &&& new.per_peer_block_statistics@.dom() == old.per_peer_block_statistics@.dom().insert(h)
        &&& new.per_peer_block_statistics@[h]@ == stats
        &&& forall|k: Seq<char>| k != h && #[trigger] old.per_peer_block_statistics@.contains_key(k)
            ==> new.per_peer_block_statistics@[k] == old.per_peer_block_statistics@[k]
    }
    &&& stats.len() == 0 ==> new.per_peer_block_statistics == old.per_peer_block_statistics
    &&& new.baking_table.content@ == ordered_items(stats, old.baking_table.sorted_by, old.baking_table.sort_order, delta_toggle)
    &&& new.baking_table.same_layout(&old.baking_table)
    &&& new.application_statistics == old.application_statistics
    &&& new.baking_rights == old.baking_rights
    &&& new.last_baking_summary == old.last_baking_summary
    &&& new.last_baked_block_level == old.last_baked_block_level
    &&& new.last_baked_block_hash == old.last_baked_block_hash
}

/// `new` is `old` after a new head, where the head before it was at `level`
/// with the hash `hash`, and the block before that was made at
/// `previous_timestamp`.
pub open spec fn after_baking_head_changed(old: BakingState, level: i32, hash: String, previous_timestamp: Timestamp, new: BakingState) -> bool {
    &&& old.baking_rights.rights@.contains_key(level as int) ==> {
        let bas = if old.application_statistics@.contains_key(hash@) {
            BlockApplicationSummary::summary_of(old.application_statistics@[hash@])
        } else {
            BlockApplicationSummary::empty()
        };
        &&& new.last_baked_block_level == Some(level)
        &&& new.last_baked_block_hash == Some(hash)
        &&& new.last_baking_summary.level == level
        &&& new.last_baking_summary.block_application_summary == bas
        &&& new.last_baking_summary.injected == (match bas.injected {
            Some(t) => Some((t - previous_timestamp.nanos()) as u64),
            None => None,
        })
        &&& new.last_baking_summary.per_peer@ == if old.per_peer_block_statistics@.contains_key(hash@) {
            old.per_peer_block_statistics@[hash@]@
        } else {
            Seq::<PerPeerBlockStatistics>::empty()
        }
    }
    &&& !old.baking_rights.rights@.contains_key(level as int) ==> {
        &&& new.last_baked_block_level == old.last_baked_block_level
        &&& new.last_baked_block_hash == old.last_baked_block_hash
        &&& new.last_baking_summary == old.last_baking_summary
    }
    &&& new.application_statistics == old.application_statistics
    &&& new.per_peer_block_statistics == old.per_peer_block_statistics
    &&& new.baking_table == old.baking_table
    &&& new.baking_rights == old.baking_rights
}

impl BakingState {
    /// Records the application statistics of blocks, each under its hash.
    pub fn application_statistics_received(&mut self, stats: Vec<BlockApplicationStatistics>)
        ensures
            after_application_statistics(*old(self), stats@, *final(self)),
    {
        let ghost orig = stats@;
        assert(orig.len() <= usize::MAX) by {
            assert(orig.len() == stats.len());
        }
        let mut rest = stats;
        let mut k: usize = 0;
        while rest.len() > 0
            invariant
                k + rest@.len() == orig.len(),
                orig.len() <= usize::MAX,
                rest@ == orig.skip(k as int),
                self.application_statistics@ == with_application_statistics(old(self).application_statistics@, orig.take(k as int)),
                self.per_peer_block_statistics == old(self).per_peer_block_statistics,
                self.baking_table == old(self).baking_table,
                self.baking_rights == old(self).baking_rights,
                self.last_baking_summary == old(self).last_baking_summary,
                self.last_baked_block_level == old(self).last_baked_block_level,
                self.last_baked_block_hash == old(self).last_baked_block_hash,
            decreases rest@.len(),
        {
            assert(orig.take(k + 1).drop_last() =~= orig.take(k as int));
            assert(rest@[0] == orig[k as int]);
            let st = rest.remove(0);
            let hash = st.block_hash.clone();
            self.application_statistics.insert(hash, st);
            assert(rest@ =~= orig.skip(k + 1));
            k = k + 1;
        }
        assert(orig.take(orig.len() as int) =~= orig);
    }

    /// Takes the peers' reports of the current block: the table shows them,
    /// sorted as the table is, and they are kept under the hash of the block
    /// of the first report.
    pub fn per_peer_statistics_received(&mut self, stats: Vec<PerPeerBlockStatistics>, delta_toggle: bool)
        ensures
            after_per_peer_statistics(*old(self), stats@, delta_toggle, *final(self)),
    {
        if stats.len() > 0 {
            let hash = stats[0].block_hash.clone();
            let kept = clone_peer_statistics(&stats);
            self.per_peer_block_statistics.insert(hash, kept);
        }
        self.baking_table.content = stats;
        self.baking_table.sort_content(delta_toggle);
    }

    /// At a new head: where the baker had the right to bake the level of the
    /// head before it (the block with `hash`), that block becomes the last
    /// baked one and its summary is taken from its application statistics,
    /// the reports of the peers, and the timestamp of the block before.
    pub fn head_changed(&mut self, level: i32, hash: &String, previous_timestamp: Timestamp)
        requires
            old(self).baking_rights.rights@.contains_key(level as int) ==> {
                &&& previous_timestamp.valid()
                &&& old(self).application_statistics@.contains_key(hash@)
                    ==> old(self).application_statistics@[hash@].spans_ok()
            },
        ensures
            after_baking_head_changed(*old(self), level, *hash, previous_timestamp, *final(self)),
    {
        match self.baking_rights.next_baking_level(level) {
            Some(baking_level) => {
                if baking_level == level {
                    self.last_baked_block_level = Some(level);
                    self.last_baked_block_hash = Some(hash.clone());
                    let block_application_summary = match self.application_statistics.get(hash.as_str()) {
                        Some(st) => BlockApplicationSummary::from(st),
                        None => BlockApplicationSummary::default(),
                    };
                    let per_peer = match self.per_peer_block_statistics.get(hash.as_str()) {
                        Some(v) => clone_peer_statistics(v),
                        None => Vec::new(),
                    };
                    self.last_baking_summary = BakingSummary::new(
                        baking_level,
                        previous_timestamp,
                        block_application_summary,
                        per_peer,
                    );
                }
            },
            None => {},
        }
    }

    /// The state before any data arrived: an empty peer table with four fixed
    /// columns, no rights and no baked block.
    pub fn default() -> (res: BakingState)
        ensures
            res.application_statistics@ == Map::<Seq<char>, BlockApplicationStatistics>::empty(),
            res.per_peer_block_statistics@ == Map::<Seq<char>, PerPeerBlockStatisticsVector>::empty(),
            texts(res.baking_table.headers@) == baking_headers(),
            res.baking_table.constraints@ == baking_constraints(),
            res.baking_table.fixed_count == 4,
            res.baking_table.first_rendered_index == 4,
            res.baking_table.content@.len() == 0,
            res.baking_table.rendered == 0,
            res.baking_table.selected == 0,
            res.baking_table.sorted_by == 0,
            res.baking_table.sort_order == SortOrder::Ascending,
            res.baking_table.table_state == (TableState { offset: 0, selected: None }),
            res.baking_rights.rights@ == Map::<int, Option<Timestamp>>::empty(),
            res.last_baking_summary.level == 0,
            res.last_baking_summary.injected is None,
            res.last_baking_summary.block_application_summary == BlockApplicationSummary::empty(),
            res.last_baking_summary.per_peer@.len() == 0,
            res.last_baked_block_level is None,
            res.last_baked_block_hash is None,
    {
        let headers = strings_of(&["Address", "Node Id", "Header Received", "Header Sent", "OP Requested", "OP Sent"]);
        let constraints = vec![
            Constraint::Length(22), Constraint::Length(30), Constraint::Min(17),
            Constraint::Min(13), Constraint::Min(14), Constraint::Min(9),
        ];
        assert(texts(headers@) =~= baking_headers());
        assert(constraints@ =~= baking_constraints());
        BakingState {
            application_statistics: TextMap::new(),
            per_peer_block_statistics: TextMap::new(),
            baking_table: ExtendedTable::new(headers, constraints, 4),
            baking_rights: BakingRights::default(),
            last_baking_summary: BakingSummary::default(),
            last_baked_block_level: None,
            last_baked_block_hash: None,
        }
    }
}

/// Ask for the application statistics of the blocks at `level`.
#[derive(Debug, Clone)]
pub struct ApplicationStatisticsGetAction {
    pub level: i32,
}

/// The node reported the application statistics of blocks.
#[derive(Debug, Clone)]
pub struct ApplicationStatisticsReceivedAction {
    pub application_statistics: Vec<BlockApplicationStatistics>,
}

/// Ask for the peers' reports of the block at `level`.
#[derive(Debug, Clone)]
pub struct PerPeerBlockStatisticsGetAction {
    pub level: i32,
}

/// The node reported what its peers did with a block.
#[derive(Debug, Clone)]
pub struct PerPeerBlockStatisticsReceivedAction {
    pub per_peer_block_statistics: PerPeerBlockStatisticsVector,
}

/// Ask for the baker's rights in `cycle`.
#[derive(Debug, Clone)]
pub struct BakingRightsGetAction {
    pub cycle: i32,
}

/// The node reported the baker's rights.
#[derive(Debug, Clone)]
pub struct BakingRightsReceivedAction {
    pub rights: Vec<BakingRightsPerLevel>,
}

/// The baker baked the block at `level`.
#[derive(Debug, Clone)]
pub struct BlockBakedAction {
    pub level: i32,
}

/// Ask for the application statistics of the baked block at `level`.
#[derive(Debug, Clone)]
pub struct ApplicationStatisticsBakedGetAction {
    pub level: i32,
}

/// The node reported the application statistics of the baked block.
#[derive(Debug, Clone)]
pub struct ApplicationStatisticsBakedReceivedAction {
    pub application_statistics: Vec<BlockApplicationStatistics>,
}

/// Ask for the peers' reports of the baked block at `level`.
#[derive(Debug, Clone)]
pub struct PerPeerBlockStatisticsBakedGetAction {
    pub level: i32,
}

/// The node reported what its peers did with the baked block.
#[derive(Debug, Clone)]
pub struct PerPeerBlockStatisticsBakedReceivedAction {
    pub per_peer_block_statistics: PerPeerBlockStatisticsVector,
}

/// An `hdrhistogram::Histogram<u64>`, kept whole in a private field: the
/// histogram's type parameter is bound by a trait of that crate, so its
/// contents are known only through `recorded_values`.
#[verifier::external_body]
pub struct TimeHistogram {
    histogram: hdrhistogram::Histogram<u64>,
}

/// The values recorded in a histogram, each as often as it was recorded.
pub uninterp spec fn recorded_values(h: TimeHistogram) -> Multiset<u64>;

/// What the linear iteration of an `hdrhistogram` with one significant digit
/// gives for the recorded `values`: for each range of width `step`, the
/// highest value of the range and how many values fell in it.
pub uninterp spec fn linear_histogram(values: Multiset<u64>, step: u64) -> Seq<(u64, u64)>;

/// Calls `hdrhistogram::Histogram::<u64>::new(1)`: an empty histogram that
/// resizes itself to the values it records. `new(1)` calls
/// `new_with_bounds(1, 2, 1)`, whose checks all pass, so it is made.
#[verifier::external_body]
fn new_histogram() -> (res: Option<TimeHistogram>)
    ensures
        res is Some,
        res matches Some(h) ==> recorded_values(h) =~= Multiset::empty(),
{
    hdrhistogram::Histogram::<u64>::new(1).ok().map(|histogram| TimeHistogram { histogram })
}

/// Calls `record` of the histogram, which records the value once more. The
/// histogram resizes itself to record any value up to `i64::MAX / 2`;
/// resizing fails only on a size that is no `usize`, which these values do
/// not reach, so the call succeeds.
#[verifier::external_body]
fn record_value(h: &mut TimeHistogram, value: u64) -> (ok: bool)
    requires
        value < 0x4000_0000_0000_0000,
    ensures
        ok,
        recorded_values(*final(h)) == recorded_values(*old(h)).insert(value),
{
    h.histogram.record(value).is_ok()
}

/// Calls `iter_linear(step)` of the histogram and takes each step as its
/// `value_iterated_to` and `count_since_last_iteration`; the result is named
/// `linear_histogram`. The iteration adds `step` to a 64-bit level up to the
/// largest value, so values and step are kept below 2^62.
#[verifier::external_body]
fn linear_buckets(h: &TimeHistogram, step: u64) -> (res: Vec<(u64, u64)>)
    requires
        0 < step < 0x4000_0000_0000_0000,
        forall|v: u64| recorded_values(*h).count(v) > 0 ==> v < 0x4000_0000_0000_0000,
    ensures
        res@ == linear_histogram(recorded_values(*h), step),
{
    h.histogram.iter_linear(step).map(|v| (v.value_iterated_to(), v.count_since_last_iteration())).collect()
}

/// The linear histogram of `values` with bars of width `step`.
fn linear_histogram_of(values: &Vec<u64>, step: u64) -> (res: Vec<(u64, u64)>)
    requires
        0 < step < 0x4000_0000_0000_0000,
        forall|i: int| 0 <= i < values@.len() ==> values@[i] < 0x4000_0000_0000_0000,
    ensures
        res@ == linear_histogram(values@.to_multiset(), step),
{
    let mut h = new_histogram().unwrap();
    let mut i: usize = 0;
    proof {
        vstd::seq_lib::to_multiset_len(values@.take(0));
        vstd::multiset::lemma_multiset_empty_len(values@.take(0).to_multiset());
    }
    while i < values.len()
        invariant
            i <= values@.len(),
            forall|j: int| 0 <= j < values@.len() ==> values@[j] < 0x4000_0000_0000_0000,
            recorded_values(h) == values@.take(i as int).to_multiset(),
        decreases values@.len() - i,
    {
        record_value(&mut h, values[i]);
        proof {
            assert(values@.take(i + 1) =~= values@.take(i as int).push(values@[i as int]));
            vstd::seq_lib::to_multiset_build(values@.take(i as int), values@[i as int]);
        }
        i = i + 1;
    }
    assert(values@.take(values@.len() as int) =~= values@);
    assert forall|v: u64| recorded_values(h).count(v) > 0 implies v < 0x4000_0000_0000_0000 by {
        vstd::seq_lib::to_multiset_contains(values@, v);
    }
    linear_buckets(&h, step)
}

/// The width of a bar of the histogram of the times at which the peers
/// received a block: 100 ms.
pub open spec fn histogram_step() -> u64 {
    100_000_000
}

/// The times at which the peers received the block, a missing one as zero.
pub open spec fn received_times(stats: Seq<PerPeerBlockStatistics>) -> Seq<u64> {
    stats.map_values(|p: PerPeerBlockStatistics| match p.received_time {
        Some(t) => t,
        None => 0,
    })
}

/// Data for a histogram: the highest value of each bar and its count.
pub trait ToHistogramData {
    /// The values that the histogram counts.
    spec fn histogram_values(&self) -> Seq<u64>;

    /// The bars of 100 ms of the values.
    fn to_histogram_data(&self) -> (res: Vec<(u64, u64)>)
        requires
            forall|i: int| 0 <= i < self.histogram_values().len() ==> self.histogram_values()[i] < 0x4000_0000_0000_0000,
        ensures
            res@ == linear_histogram(self.histogram_values().to_multiset(), histogram_step()),
    ;
}

impl ToHistogramData for Vec<PerPeerBlockStatistics> {
    open spec fn histogram_values(&self) -> Seq<u64> {
        received_times(self@)
    }

    fn to_histogram_data(&self) -> (res: Vec<(u64, u64)>) {
        let mut values: Vec<u64> = Vec::new();
        let mut i: usize = 0;
        while i < self.len()
            invariant
                i <= self@.len(),
                values@ == received_times(self@.take(i as int)),
            decreases self@.len() - i,
        {
            let t = match self[i].received_time {
                Some(t) => t,
                None => 0,
            };
            values.push(t);
            assert(values@ =~= received_times(self@.take(i + 1)));
            i = i + 1;
        }
        assert(self@.take(self@.len() as int) =~= self@);
        assert forall|k: int| 0 <= k < values@.len() implies values@[k] < 0x4000_0000_0000_0000 by {
            assert(self.histogram_values()[k] == values@[k]);
        }
        linear_histogram_of(&values, 100_000_000)
    }
}

/// Whether the receipt times of the peers can be counted in a histogram.
pub fn histogram_fits(stats: &Vec<PerPeerBlockStatistics>) -> (res: bool)
    ensures
        res == (forall|i: int| 0 <= i < received_times(stats@).len() ==> received_times(stats@)[i] < 0x4000_0000_0000_0000),
{
    let mut i: usize = 0;
    while i < stats.len()
        invariant
            i <= stats@.len(),
            forall|j: int| 0 <= j < i ==> received_times(stats@)[j] < 0x4000_0000_0000_0000,
        decreases stats@.len() - i,
    {
        let t = match stats[i].received_time {
            Some(t) => t,
            None => 0,
        };
        assert(received_times(stats@)[i as int] == t);
        if t >= 0x4000_0000_0000_0000 {
            return false;
        }
        i = i + 1;
    }
    true
}

} // verus!
