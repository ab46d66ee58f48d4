use vstd::prelude::*;

use crate::extensions::extended_table::TableState;

verus! {

/// The blocks and headers the node is downloading, with the rates as the bits
/// of the `f32` values the node sends.
#[derive(Debug, Clone, Copy, PartialEq, Eq, Structural)]
pub struct IncomingTransferMetrics {
    pub eta: Option<u32>,
    pub current_block_count: usize,
    pub downloaded_blocks: usize,
    pub download_rate: u32,
    pub average_download_rate: u32,
    pub downloaded_headers: usize,
    pub header_download_rate: u32,
    pub header_average_download_rate: u32,
}

impl IncomingTransferMetrics {
    /// Nothing downloaded yet.
    pub fn default() -> (res: IncomingTransferMetrics)
        ensures
            res == IncomingTransferMetrics::zero(),
    {
        IncomingTransferMetrics {
            eta: None,
            current_block_count: 0,
            downloaded_blocks: 0,
            download_rate: 0,
            average_download_rate: 0,
            downloaded_headers: 0,
            header_download_rate: 0,
            header_average_download_rate: 0,
        }
    }

    pub open spec fn zero() -> IncomingTransferMetrics {
        IncomingTransferMetrics {
            eta: None,
            current_block_count: 0,
            downloaded_blocks: 0,
            download_rate: 0,
            average_download_rate: 0,
            downloaded_headers: 0,
            header_download_rate: 0,
            header_average_download_rate: 0,
        }
    }
}

/// A block by its hash and level.
#[derive(Debug, Clone)]
pub struct BlockInfo {
    pub hash: String,
    pub level: i32,
}

/// How fast blocks are applied, as the bits of the `f32` speeds, and the last
/// block applied.
#[derive(Debug, Clone)]
pub struct BlockApplicationStatus {
    pub current_application_speed: u32,
    pub average_application_speed: u32,
    pub last_applied_block: Option<BlockInfo>,
}

impl BlockApplicationStatus {
    /// Nothing applied yet.
    pub fn default() -> (res: BlockApplicationStatus)
        ensures
            res.current_application_speed == 0,
            res.average_application_speed == 0,
            res.last_applied_block is None,
    {
        BlockApplicationStatus { current_application_speed: 0, average_application_speed: 0, last_applied_block: None }
    }
}

/// What the node exchanged with one peer, with the speeds as the bits of the
/// `f32` values.
#[derive(Debug, Clone)]
pub struct PeerMetrics {
    pub id: String,
    pub ip_address: String,
    pub transferred_bytes: usize,
    pub average_transfer_speed: u32,
    pub current_transfer_speed: u32,
}

pub type PeerTableData = Vec<[String; 4]>;

/// The download and application of one group of blocks, with the duration as
/// the bits of an `f32`.
#[derive(Debug, Clone, Copy, PartialEq, Eq, Structural)]
pub struct BlockStatus {
    pub group: i32,
    pub numbers_of_blocks: i32,
    pub finished_blocks: i32,
    pub applied_blocks: i32,
    pub download_duration: Option<u32>,
}

impl BlockStatus {
    /// Every block of the group is downloaded.
    pub fn all_downloaded(&self) -> (res: bool)
        ensures
            res == (self.finished_blocks >= self.numbers_of_blocks),
    {
        self.finished_blocks >= self.numbers_of_blocks
    }
}

/// The download and application of the blocks of one cycle, with the time
/// it took as the bits of an `f32`; the time is known once every header of the
/// cycle is downloaded.
#[derive(Debug, Clone, Copy, PartialEq, Eq, Structural)]
pub struct Cycle {
    pub id: usize,
    pub headers: usize,
    pub operations: usize,
    pub applications: usize,
    pub duration: Option<u32>,
}

impl Cycle {
    /// Every block of the cycle is applied: all headers are downloaded and
    /// as many blocks were applied as there are headers.
    pub fn all_applied(&self) -> (res: bool)
        ensures
            res == (self.duration is Some && self.applications == self.headers),
    {
        if self.duration.is_some() {
            self.applications == self.headers
        } else {
            false
        }
    }
}

/// The cycles of the chain.
#[derive(Debug, Clone)]
pub struct ChainStatus {
    pub chain: Vec<Cycle>,
}

/// The blocks of the period view: how many there are, how many fit on the
/// screen and which one is selected.
#[derive(Debug, Clone, Copy, PartialEq, Eq, Structural)]
pub struct PeriodInfoState {
    pub container_count: usize,
    pub displayable_container_count: usize,
    pub selected: Option<usize>,
    pub offset: usize,
}

impl PeriodInfoState {
    /// The first block shown.
    pub open spec fn first_shown(&self) -> usize {
        match self.selected {
            Some(s) => if s >= self.displayable_container_count { (s - self.displayable_container_count) as usize } else { 0 },
            None => 0,
        }
    }

    /// The selected block lies within the blocks shown: at most the number of
    /// displayable blocks after the first one shown.
    pub proof fn lemma_selected_is_shown(&self)
        ensures
            self.selected matches Some(s) ==> self.first_shown() <= s <= self.first_shown() + self.displayable_container_count,
            self.selected is None ==> self.first_shown() == 0,
    {
    }

    pub fn default() -> (res: PeriodInfoState)
        ensures
            res == (PeriodInfoState { container_count: 0, displayable_container_count: 0, selected: None, offset: 0 }),
    {
        PeriodInfoState { container_count: 0, displayable_container_count: 0, selected: None, offset: 0 }
    }

    pub fn select(&mut self, selected: Option<usize>)
        ensures
            *final(self) == (PeriodInfoState { selected, ..*old(self) }),
    {
        self.selected = selected;
    }

    pub fn selected(&self) -> (res: Option<usize>)
        ensures
            res == self.selected,
    {
        self.selected
    }

    /// The first block shown: far enough that the selected block is shown.
    pub fn offset(&self) -> (res: usize)
        ensures
            res == self.first_shown(),
    {
        match self.selected {
            Some(selected) => {
                if selected >= self.displayable_container_count {
                    selected - self.displayable_container_count
                } else {
                    0
                }
            },
            None => 0,
        }
    }
}

/// A message of the node's websocket.
#[derive(Debug, Clone)]
pub enum WebsocketMessage {
    IncomingTransfer(IncomingTransferMetrics),
    BlockStatus(Vec<BlockStatus>),
    BlockApplicationStatus(BlockApplicationStatus),
    ChainStatus(ChainStatus),
    PeersMetrics(Vec<PeerMetrics>),
}

/// The error of the websocket.
#[derive(Debug, Clone)]
pub enum WebsocketError {
    ConnectionError { url: String },
    DeserializeError,
}

/// The synchronization screen.
#[derive(Debug)]
pub struct SynchronizationState {
    pub incoming_transfer: IncomingTransferMetrics,
    pub aplication_status: BlockApplicationStatus,
    pub peer_metrics: Vec<PeerMetrics>,
    pub block_metrics: Vec<BlockStatus>,
    pub cycle_data: Vec<Cycle>,
    pub peer_table_state: TableState,
    pub period_info_state: PeriodInfoState,
}

/// The last transfer report among `msgs`.
pub open spec fn last_transfer(msgs: Seq<WebsocketMessage>) -> Option<IncomingTransferMetrics>
    decreases msgs.len(),
{
    if msgs.len() == 0 {
        None
    } else {
        match msgs.last() {
            WebsocketMessage::IncomingTransfer(m) => Some(m),
            _ => last_transfer(msgs.drop_last()),
        }
    }
}

/// The last block status report among `msgs`.
pub open spec fn last_block_status(msgs: Seq<WebsocketMessage>) -> Option<Vec<BlockStatus>>
    decreases msgs.len(),
{
    if msgs.len() == 0 {
        None
    } else {
        match msgs.last() {
            WebsocketMessage::BlockStatus(m) => Some(m),
            _ => last_block_status(msgs.drop_last()),
        }
    }
}

/// The last application report among `msgs`.
pub open spec fn last_application(msgs: Seq<WebsocketMessage>) -> Option<BlockApplicationStatus>
    decreases msgs.len(),
{
    if msgs.len() == 0 {
        None
    } else {
        match msgs.last() {
            WebsocketMessage::BlockApplicationStatus(m) => Some(m),
            _ => last_application(msgs.drop_last()),
        }
    }
}

/// The cycles of the last chain report among `msgs`.
pub open spec fn last_chain(msgs: Seq<WebsocketMessage>) -> Option<Vec<Cycle>>
    decreases msgs.len(),
{
    if msgs.len() == 0 {
        None
    } else {
        match msgs.last() {
            WebsocketMessage::ChainStatus(m) => Some(m.chain),
            _ => last_chain(msgs.drop_last()),
        }
    }
}

/// The last peer report among `msgs`.
pub open spec fn last_peers(msgs: Seq<WebsocketMessage>) -> Option<Vec<PeerMetrics>>
    decreases msgs.len(),
{
    if msgs.len() == 0 {
        None
    } else {
        match msgs.last() {
            WebsocketMessage::PeersMetrics(m) => Some(m),
            _ => last_peers(msgs.drop_last()),
        }
    }
}

/// `new` is `old` after taking the last report of each kind in `msgs`.
pub open spec fn after_messages(old: SynchronizationState, msgs: Seq<WebsocketMessage>, new: SynchronizationState) -> bool {
    &&& new.incoming_transfer == match last_transfer(msgs) {
        Some(m) => m,
        None => old.incoming_transfer,
    }
    &&& new.block_metrics == match last_block_status(msgs) {
        Some(m) => m,
        None => old.block_metrics,
    }
    &&& new.aplication_status == match last_application(msgs) {
        Some(m) => m,
        None => old.aplication_status,
    }
    &&& new.cycle_data == match last_chain(msgs) {
        Some(m) => m,
        None => old.cycle_data,
    }
    &&& new.peer_metrics == match last_peers(msgs) {
        Some(m) => m,
        None => old.peer_metrics,
    }
    &&& new.peer_table_state == old.peer_table_state
    &&& new.period_info_state == old.period_info_state
}

/// `found` is what the last message of `msgs` that `pick` takes gives:
/// some message gives it and no later one is taken; `None` where `pick`
/// takes none of them.
pub open spec fn last_taken<T>(msgs: Seq<WebsocketMessage>, pick: spec_fn(WebsocketMessage) -> Option<T>, found: Option<T>) -> bool {
    match found {
        Some(v) => exists|j: int| 0 <= j < msgs.len() && #[trigger] pick(msgs[j]) == Some(v)
            && forall|j2: int| j < j2 < msgs.len() ==> #[trigger] pick(msgs[j2]) is None,
        None => forall|j: int| 0 <= j < msgs.len() ==> #[trigger] pick(msgs[j]) is None,
    }
}

/// Taking the transfer report of a message.
pub open spec fn pick_transfer(m: WebsocketMessage) -> Option<IncomingTransferMetrics> {
    match m {
        WebsocketMessage::IncomingTransfer(t) => Some(t),
        _ => None,
    }
}

/// Taking the block status report of a message.
pub open spec fn pick_block_status(m: WebsocketMessage) -> Option<Vec<BlockStatus>> {
    match m {
        WebsocketMessage::BlockStatus(t) => Some(t),
        _ => None,
    }
}

/// Taking the application report of a message.
pub open spec fn pick_application(m: WebsocketMessage) -> Option<BlockApplicationStatus> {
    match m {
        WebsocketMessage::BlockApplicationStatus(t) => Some(t),
        _ => None,
    }
}

/// Taking the cycles of a chain report.
pub open spec fn pick_chain(m: WebsocketMessage) -> Option<Vec<Cycle>> {
    match m {
        WebsocketMessage::ChainStatus(t) => Some(t.chain),
        _ => None,
    }
}

/// Taking the peer report of a message.
pub open spec fn pick_peers(m: WebsocketMessage) -> Option<Vec<PeerMetrics>> {
    match m {
        WebsocketMessage::PeersMetrics(t) => Some(t),
        _ => None,
    }
}

/// Of the messages that arrive together, the last report of each kind is
/// what the screen shows of that kind; a kind with no report keeps what it
/// showed.
pub proof fn lemma_last_report_of_each_kind_wins(msgs: Seq<WebsocketMessage>)
    ensures
        last_taken(msgs, |m: WebsocketMessage| pick_transfer(m), last_transfer(msgs)),
        last_taken(msgs, |m: WebsocketMessage| pick_block_status(m), last_block_status(msgs)),
        last_taken(msgs, |m: WebsocketMessage| pick_application(m), last_application(msgs)),
        last_taken(msgs, |m: WebsocketMessage| pick_chain(m), last_chain(msgs)),
        last_taken(msgs, |m: WebsocketMessage| pick_peers(m), last_peers(msgs)),
    decreases msgs.len(),
{
    if msgs.len() > 0 {
        let d = msgs.drop_last();
        let n = msgs.len() - 1;
        lemma_last_report_of_each_kind_wins(d);
        assert forall|j: int| 0 <= j < d.len() implies #[trigger] msgs[j] == d[j] by {}
        assert(msgs[n] == msgs.last());
        lemma_last_taken_push(d, |m: WebsocketMessage| pick_transfer(m), last_transfer(d), msgs.last());
        lemma_last_taken_push(d, |m: WebsocketMessage| pick_block_status(m), last_block_status(d), msgs.last());
        lemma_last_taken_push(d, |m: WebsocketMessage| pick_application(m), last_application(d), msgs.last());
        lemma_last_taken_push(d, |m: WebsocketMessage| pick_chain(m), last_chain(d), msgs.last());
        lemma_last_taken_push(d, |m: WebsocketMessage| pick_peers(m), last_peers(d), msgs.last());
        assert(d.push(msgs.last()) =~= msgs);
    }
}

/// One more message: what it gives where `pick` takes it, else what came
/// before.
proof fn lemma_last_taken_push<T>(
    msgs: Seq<WebsocketMessage>,
    pick: spec_fn(WebsocketMessage) -> Option<T>,
    found: Option<T>,
    m: WebsocketMessage,
)
    requires
        last_taken(msgs, pick, found),
    ensures
        last_taken(msgs.push(m), pick, if pick(m) is Some { pick(m) } else { found }),
{
    let es = msgs.push(m);
    let n = msgs.len() as int;
    assert(es[n] == m);
    assert forall|j: int| 0 <= j < msgs.len() implies #[trigger] es[j] == msgs[j] by {}
    if pick(m) is None {
        match found {
            Some(v) => {
                let j = choose|j: int| 0 <= j < msgs.len() && #[trigger] pick(msgs[j]) == Some(v)
                    && forall|j2: int| j < j2 < msgs.len() ==> #[trigger] pick(msgs[j2]) is None;
                assert(pick(es[j]) == Some(v));
                assert forall|j2: int| j < j2 < es.len() implies #[trigger] pick(es[j2]) is None by {
                    if j2 < n {
                        assert(pick(msgs[j2]) is None);
                    }
                }
            },
            None => {
                assert forall|j: int| 0 <= j < es.len() implies #[trigger] pick(es[j]) is None by {
                    if j < n {
                        assert(pick(msgs[j]) is None);
                    }
                }
            },
        }
    } else {
        assert(pick(es[n]) == pick(m));
    }
}

/// How far the cycle shown in one box of the period map got.
#[derive(Debug, Clone, Copy, PartialEq, Eq, Structural)]
pub enum CycleProgress {
    /// Every block of the cycle is applied.
    Applied,
    /// Every block of the cycle is downloaded, not all applied.
    Downloaded,
    /// Neither, or nothing is known of the cycle.
    Pending,
}

/// The progress of cycle `i`: applied where its cycle data say so, else
/// downloaded where its block group says so; pending where either is
/// missing.
pub open spec fn cycle_progress_of(state: SynchronizationState, i: int) -> CycleProgress {
    if i >= state.block_metrics@.len() || i >= state.cycle_data@.len() {
        CycleProgress::Pending
    } else if state.cycle_data@[i].duration is Some && state.cycle_data@[i].applications
        == state.cycle_data@[i].headers {
        CycleProgress::Applied
    } else if state.block_metrics@[i].finished_blocks >= state.block_metrics@[i].numbers_of_blocks {
        CycleProgress::Downloaded
    } else {
        CycleProgress::Pending
    }
}

impl SynchronizationState {
    /// The progress of cycle `index`, by which the period map colours it.
    pub fn cycle_progress(&self, index: usize) -> (res: CycleProgress)
        ensures
            res == cycle_progress_of(*self, index as int),
    {
        if self.block_metrics.len() <= index || self.cycle_data.len() <= index {
            CycleProgress::Pending
        } else if self.cycle_data[index].all_applied() {
            CycleProgress::Applied
        } else if self.block_metrics[index].all_downloaded() {
            CycleProgress::Downloaded
        } else {
            CycleProgress::Pending
        }
    }

    /// The screen before any message arrived.
    pub fn default() -> (res: SynchronizationState)
        ensures
            res.incoming_transfer == IncomingTransferMetrics::zero(),
            res.aplication_status.current_application_speed == 0,
            res.aplication_status.average_application_speed == 0,
            res.aplication_status.last_applied_block is None,
            res.peer_metrics@.len() == 0,
            res.block_metrics@.len() == 0,
            res.cycle_data@.len() == 0,
            res.peer_table_state == (TableState { offset: 0, selected: None }),
            res.period_info_state == (PeriodInfoState { container_count: 0, displayable_container_count: 0, selected: None, offset: 0 }),
    {
        SynchronizationState {
            incoming_transfer: IncomingTransferMetrics::default(),
            aplication_status: BlockApplicationStatus::default(),
            peer_metrics: Vec::new(),
            block_metrics: Vec::new(),
            cycle_data: Vec::new(),
            peer_table_state: TableState::new(),
            period_info_state: PeriodInfoState::default(),
        }
    }

    /// Takes the messages of the websocket in order: each replaces what the
    /// screen showed of its kind.
    pub fn messages_received(&mut self, messages: Vec<WebsocketMessage>)
        ensures
            after_messages(*old(self), messages@, *final(self)),
    {
        let ghost orig = messages@;
        assert(orig.len() <= usize::MAX) by {
            assert(orig.len() == messages.len());
        }
        let mut rest = messages;
        let mut k: usize = 0;
        while rest.len() > 0
            invariant
                k + rest@.len() == orig.len(),
                orig.len() <= usize::MAX,
                rest@ == orig.skip(k as int),
                after_messages(*old(self), orig.take(k as int), *self),
            decreases rest@.len(),
        {
            let ghost p = orig.take(k as int);
            let ghost q = orig.take(k + 1);
            assert(q.drop_last() =~= p);
            assert(rest@[0] == orig[k as int]);
            assert(q.last() == orig[k as int]);
            let m = rest.remove(0);
            match m {
                WebsocketMessage::IncomingTransfer(t) => {
                    self.incoming_transfer = t;
                },
                WebsocketMessage::BlockStatus(b) => {
                    self.block_metrics = b;
                },
                WebsocketMessage::BlockApplicationStatus(a) => {
                    self.aplication_status = a;
                },
                WebsocketMessage::ChainStatus(c) => {
                    self.cycle_data = c.chain;
                },
                WebsocketMessage::PeersMetrics(p) => {
                    self.peer_metrics = p;
                },
            }
            assert(rest@ =~= orig.skip(k + 1));
            k = k + 1;
        }
        assert(orig.take(orig.len() as int) =~= orig);
    }
}

/// Read the messages the websocket received.
#[derive(Debug, Clone)]
pub struct WebsocketReadAction {}

/// The websocket received messages.
#[derive(Debug, Clone)]
pub struct WebsocketMessageReceivedAction {
    pub websocket_message: Vec<WebsocketMessage>,
}

} // verus!
