use vstd::prelude::*;

use crate::baking::{BakingRightsPerLevel, BlockApplicationStatistics, PerPeerBlockStatisticsVector};
use crate::endorsements::{EndorsementRightsWithTimePerLevel, EndorsementStatus};
use crate::operations::OperationStats;
use crate::extensions::clone_texts;
use crate::text::{i64_to_string, int_to_decimal};
use crate::timing::Timestamp;

verus! {

/// The node RPC that a call asks.
#[derive(Debug, Clone, Copy, PartialEq, Eq, Structural)]
pub enum RpcTarget {
    EndorsementRights,
    EndersementsStatus,
    CurrentHeadHeader,
    OperationsStats,
    ApplicationStatistics,
    PerPeerBlockStatistics,
    BakingRights,
    EndorsementRightsWithTime,
    MempoolEndorsementStats,
    NetworkConstants,
    CurrentHeadMetadata,
    BestRemoteLevel,
}

/// The path of an RPC, relative to the node's address.
pub open spec fn target_path(t: RpcTarget) -> Seq<char> {
    match t {
        RpcTarget::EndorsementRights => "dev/shell/automaton/endorsing_rights"@,
        RpcTarget::EndersementsStatus => "dev/shell/automaton/endorsements_status"@,
        RpcTarget::CurrentHeadHeader => "chains/main/blocks/head/header"@,
        RpcTarget::OperationsStats => "dev/shell/automaton/mempool/operation_stats"@,
        RpcTarget::ApplicationStatistics => "dev/shell/automaton/stats/current_head/application"@,
        RpcTarget::PerPeerBlockStatistics => "dev/shell/automaton/stats/current_head/peers"@,
        RpcTarget::BakingRights => "chains/main/blocks/head/helpers/baking_rights"@,
        RpcTarget::EndorsementRightsWithTime => "chains/main/blocks/head/helpers/endorsing_rights"@,
        RpcTarget::MempoolEndorsementStats => "dev/shell/automaton/stats/mempool/endorsements"@,
        RpcTarget::NetworkConstants => "chains/main/blocks/head/context/constants"@,
        RpcTarget::CurrentHeadMetadata => "chains/main/blocks/head/metadata"@,
        RpcTarget::BestRemoteLevel => "dev/peers/best_remote_level"@,
    }
}

/// A call of a node RPC, with the query that follows its path.
#[derive(Debug)]
pub struct RpcCall {
    pub target: RpcTarget,
    pub query_arg: Option<String>,
}

impl Clone for RpcCall {
    fn clone(&self) -> (res: Self)
        ensures
            res == *self,
    {
        let query_arg = match &self.query_arg {
            Some(q) => Some(q.clone()),
            None => None,
        };
        RpcCall { target: self.target, query_arg }
    }
}

impl RpcCall {
    pub fn new(target: RpcTarget, query_arg: Option<String>) -> (res: RpcCall)
        ensures
            res.target == target,
            res.query_arg == query_arg,
    {
        RpcCall { target, query_arg }
    }

    /// The path of the RPC.
    pub fn to_url(&self) -> (res: &'static str)
        ensures
            res@ == target_path(self.target),
    {
        match self.target {
            RpcTarget::EndorsementRights => "dev/shell/automaton/endorsing_rights",
            RpcTarget::EndersementsStatus => "dev/shell/automaton/endorsements_status",
            RpcTarget::CurrentHeadHeader => "chains/main/blocks/head/header",
            RpcTarget::OperationsStats => "dev/shell/automaton/mempool/operation_stats",
            RpcTarget::ApplicationStatistics => "dev/shell/automaton/stats/current_head/application",
            RpcTarget::PerPeerBlockStatistics => "dev/shell/automaton/stats/current_head/peers",
            RpcTarget::BakingRights => "chains/main/blocks/head/helpers/baking_rights",
            RpcTarget::EndorsementRightsWithTime => "chains/main/blocks/head/helpers/endorsing_rights",
            RpcTarget::MempoolEndorsementStats => "dev/shell/automaton/stats/mempool/endorsements",
            RpcTarget::NetworkConstants => "chains/main/blocks/head/context/constants",
            RpcTarget::CurrentHeadMetadata => "chains/main/blocks/head/metadata",
            RpcTarget::BestRemoteLevel => "dev/peers/best_remote_level",
        }
    }
}

/// The name of an RPC, as a call is shown.
pub open spec fn target_name(t: RpcTarget) -> Seq<char> {
    match t {
        RpcTarget::EndorsementRights => "EndorsementRights"@,
        RpcTarget::EndersementsStatus => "EndersementsStatus"@,
        RpcTarget::CurrentHeadHeader => "CurrentHeadHeader"@,
        RpcTarget::OperationsStats => "OperationsStats"@,
        RpcTarget::ApplicationStatistics => "ApplicationStatistics"@,
        RpcTarget::PerPeerBlockStatistics => "PerPeerBlockStatistics"@,
        RpcTarget::BakingRights => "BakingRights"@,
        RpcTarget::EndorsementRightsWithTime => "EndorsementRightsWithTime"@,
        RpcTarget::MempoolEndorsementStats => "MempoolEndorsementStats"@,
        RpcTarget::NetworkConstants => "NetworkConstants"@,
        RpcTarget::CurrentHeadMetadata => "CurrentHeadMetadata"@,
        RpcTarget::BestRemoteLevel => "BestRemoteLevel"@,
    }
}

fn target_name_str(t: RpcTarget) -> (res: &'static str)
    ensures
        res@ == target_name(t),
{
    match t {
            RpcTarget::EndorsementRights => "EndorsementRights",
            RpcTarget::EndersementsStatus => "EndersementsStatus",
            RpcTarget::CurrentHeadHeader => "CurrentHeadHeader",
            RpcTarget::OperationsStats => "OperationsStats",
            RpcTarget::ApplicationStatistics => "ApplicationStatistics",
            RpcTarget::PerPeerBlockStatistics => "PerPeerBlockStatistics",
            RpcTarget::BakingRights => "BakingRights",
            RpcTarget::EndorsementRightsWithTime => "EndorsementRightsWithTime",
            RpcTarget::MempoolEndorsementStats => "MempoolEndorsementStats",
            RpcTarget::NetworkConstants => "NetworkConstants",
            RpcTarget::CurrentHeadMetadata => "CurrentHeadMetadata",
            RpcTarget::BestRemoteLevel => "BestRemoteLevel",
    }
}

/// What `{:?}` writes for a text: the text in double quotes with its
/// special characters escaped.
pub uninterp spec fn debug_text(s: Seq<char>) -> Seq<char>;

/// Calls `format!("{:?}", s)` for a text; the result is named `debug_text`.
#[verifier::external_body]
fn str_debug(s: &str) -> (res: String)
    ensures
        res@ == debug_text(s@),
{
    format!("{:?}", s)
}

/// How a query is shown: `None`, or `Some(..)` around its debug text, as
/// `{:?}` writes an optional text.
pub open spec fn query_text(q: Option<String>) -> Seq<char> {
    match q {
        Some(s) => "Some("@ + debug_text(s@) + ")"@,
        None => "None"@,
    }
}

impl RpcCall {
    /// The call as it is logged: the RPC's name and the query.
    pub fn to_string(&self) -> (res: String)
        ensures
            res@ == target_name(self.target) + " - Query args: "@ + query_text(self.query_arg),
    {
        let mut res = String::from_str(target_name_str(self.target));
        res.append(" - Query args: ");
        match &self.query_arg {
            Some(q) => {
                res.append("Some(");
                let d = str_debug(q.as_str());
                res.append(d.as_str());
                res.append(")");
            },
            None => {
                res.append("None");
            },
        }
        res
    }
}

/// Where the last call stands.
#[derive(Debug, Clone, Copy, PartialEq, Eq, Structural)]
pub enum RpcState {
    Idle,
    Pending,
    Success,
}

/// The state after a call was sent.
pub open spec fn after_request(s: RpcState) -> RpcState {
    RpcState::Pending
}

/// The state after an answer came.
pub open spec fn after_response(s: RpcState) -> RpcState {
    match s {
        RpcState::Pending => RpcState::Success,
        other => other,
    }
}

/// A call followed by its answer ends in success, whatever the state before;
/// an answer without a pending call changes nothing.
pub proof fn lemma_request_then_response(s: RpcState)
    ensures
        after_response(after_request(s)) == RpcState::Success,
        s != RpcState::Pending ==> after_response(s) == s,
{
}

impl RpcState {
    pub fn default() -> (res: RpcState)
        ensures
            res == RpcState::Idle,
    {
        RpcState::Idle
    }

    /// A call was sent: the state is pending.
    pub fn on_request(&self) -> (res: RpcState)
        ensures
            res == after_request(*self),
    {
        match self {
            RpcState::Idle | RpcState::Success => RpcState::Pending,
            RpcState::Pending => RpcState::Pending,
        }
    }

    /// An answer came: a pending call succeeded; otherwise nothing changes.
    pub fn on_response(&self) -> (res: RpcState)
        ensures
            res == after_response(*self),
    {
        match self {
            RpcState::Idle => RpcState::Idle,
            RpcState::Success => RpcState::Success,
            RpcState::Pending => RpcState::Success,
        }
    }
}

/// The header of a block.
#[derive(Debug)]
pub struct CurrentHeadHeader {
    pub level: i32,
    pub hash: String,
    pub timestamp: Timestamp,
    pub chain_id: String,
    pub predecessor: String,
    pub validation_pass: u8,
    pub operations_hash: String,
    pub fitness: Vec<String>,
    pub context: String,
    pub protocol: String,
    pub signature: String,
    pub priority: i32,
    pub proof_of_work_nonce: String,
    pub liquidity_baking_escape_vote: bool,
}

/// Two headers hold the same values.
pub open spec fn same_header(a: CurrentHeadHeader, b: CurrentHeadHeader) -> bool {
    &&& a.level == b.level
    &&& a.hash == b.hash
    &&& a.timestamp == b.timestamp
    &&& a.chain_id == b.chain_id
    &&& a.predecessor == b.predecessor
    &&& a.validation_pass == b.validation_pass
    &&& a.operations_hash == b.operations_hash
    &&& a.fitness@ == b.fitness@
    &&& a.context == b.context
    &&& a.protocol == b.protocol
    &&& a.signature == b.signature
    &&& a.priority == b.priority
    &&& a.proof_of_work_nonce == b.proof_of_work_nonce
    &&& a.liquidity_baking_escape_vote == b.liquidity_baking_escape_vote
}

impl Clone for CurrentHeadHeader {
    fn clone(&self) -> (res: Self)
        ensures
            same_header(res, *self),
    {
        CurrentHeadHeader {
            level: self.level,
            hash: self.hash.clone(),
            timestamp: self.timestamp,
            chain_id: self.chain_id.clone(),
            predecessor: self.predecessor.clone(),
            validation_pass: self.validation_pass,
            operations_hash: self.operations_hash.clone(),
            fitness: clone_texts(&self.fitness),
            context: self.context.clone(),
            protocol: self.protocol.clone(),
            signature: self.signature.clone(),
            priority: self.priority,
            proof_of_work_nonce: self.proof_of_work_nonce.clone(),
            liquidity_baking_escape_vote: self.liquidity_baking_escape_vote,
        }
    }
}

impl CurrentHeadHeader {
    /// The header before any block is known: level zero at the Unix epoch,
    /// with empty texts.
    pub fn default() -> (res: CurrentHeadHeader)
        ensures
            res.level == 0,
            res.hash@ == Seq::<char>::empty(),
            res.timestamp == (Timestamp { unix_seconds: 0, nanosecond: 0 }),
            res.fitness@.len() == 0,
            res.priority == 0,
    {
        CurrentHeadHeader {
            level: 0,
            hash: String::new(),
            timestamp: Timestamp::epoch(),
            chain_id: String::new(),
            predecessor: String::new(),
            validation_pass: 0,
            operations_hash: String::new(),
            fitness: Vec::new(),
            context: String::new(),
            protocol: String::new(),
            signature: String::new(),
            priority: 0,
            proof_of_work_nonce: String::new(),
            liquidity_baking_escape_vote: false,
        }
    }
}

/// The constants of the network that the screens need.
#[derive(Debug, Clone, Copy, PartialEq, Eq, Structural)]
pub struct NetworkConstants {
    pub minimal_block_delay: i32,
    pub preserved_cycles: i32,
}

impl NetworkConstants {
    pub fn default() -> (res: NetworkConstants)
        ensures
            res == (NetworkConstants { minimal_block_delay: 0, preserved_cycles: 0 }),
    {
        NetworkConstants { minimal_block_delay: 0, preserved_cycles: 0 }
    }
}

/// Where a block stands in its cycle.
#[derive(Debug, Clone, Copy, PartialEq, Eq, Structural)]
pub struct LevelInfo {
    pub cycle: i32,
    pub cycle_position: i32,
    pub expected_commitment: bool,
    pub level: i32,
    pub level_position: i32,
}

/// The metadata of the head block.
#[derive(Debug, Clone, Copy, PartialEq, Eq, Structural)]
pub struct CurrentHeadMetadata {
    pub level_info: LevelInfo,
}

impl CurrentHeadMetadata {
    pub fn default() -> (res: CurrentHeadMetadata)
        ensures
            res == (CurrentHeadMetadata {
                level_info: LevelInfo { cycle: 0, cycle_position: 0, expected_commitment: false, level: 0, level_position: 0 },
            }),
    {
        CurrentHeadMetadata {
            level_info: LevelInfo { cycle: 0, cycle_position: 0, expected_commitment: false, level: 0, level_position: 0 },
        }
    }
}

/// The answer of an RPC, in the order the node gave its entries.
#[derive(Debug, Clone)]
pub enum RpcResponse {
    EndorsementRights(Vec<(String, Vec<u32>)>),
    EndorsementsStatus(Vec<(String, EndorsementStatus)>),
    CurrentHeadHeader(CurrentHeadHeader),
    OperationsStats(Vec<(String, OperationStats)>),
    ApplicationStatistics(Vec<BlockApplicationStatistics>),
    PerPeerBlockStatistics(PerPeerBlockStatisticsVector),
    BakingRights(Vec<BakingRightsPerLevel>),
    EndorsementRightsWithTime(Vec<EndorsementRightsWithTimePerLevel>),
    MempoolEndorsementStats(Vec<(String, OperationStats)>),
    NetworkConstants(NetworkConstants),
    CurrentHeadMetadata(CurrentHeadMetadata),
    BestRemoteLevel(Option<i32>),
}

/// Ask the node an RPC.
#[derive(Debug, Clone)]
pub struct RpcRequestAction {
    pub call: RpcCall,
}

/// The node answered an RPC.
#[derive(Debug, Clone)]
pub struct RpcResponseAction {
    pub response: RpcResponse,
}

/// Read the answers of the node.
#[derive(Debug, Clone)]
pub struct RpcResponseReadAction {}

/// The query of a level.
pub open spec fn level_query_text(level: int) -> Seq<char> {
    "?level="@ + int_to_decimal(level)
}

/// The query of a level and a block.
pub open spec fn level_block_query_text(level: int, block: Seq<char>) -> Seq<char> {
    "?level="@ + int_to_decimal(level) + "&block="@ + block
}

/// The query of the rights of a delegate in a cycle.
pub open spec fn delegate_cycle_query_text(delegate: Seq<char>, cycle: int) -> Seq<char> {
    "?delegate="@ + delegate + "&cycle="@ + int_to_decimal(cycle)
}

/// The query of the first-priority baking rights of a delegate in a cycle.
pub open spec fn baking_rights_query_text(delegate: Seq<char>, cycle: int) -> Seq<char> {
    "?delegate="@ + delegate + "&max_priority=0&cycle="@ + int_to_decimal(cycle)
}

pub fn level_query(level: i32) -> (res: String)
    ensures
        res@ == level_query_text(level as int),
{
    let mut s = String::from_str("?level=");
    let n = i64_to_string(level as i64);
    s.append(n.as_str());
    s
}

pub fn level_block_query(level: i32, block: &str) -> (res: String)
    ensures
        res@ == level_block_query_text(level as int, block@),
{
    let mut s = String::from_str("?level=");
    let n = i64_to_string(level as i64);
    s.append(n.as_str());
    s.append("&block=");
    s.append(block);
    s
}

pub fn delegate_cycle_query(delegate: &str, cycle: i32) -> (res: String)
    ensures
        res@ == delegate_cycle_query_text(delegate@, cycle as int),
{
    let mut s = String::from_str("?delegate=");
    s.append(delegate);
    s.append("&cycle=");
    let n = i64_to_string(cycle as i64);
    s.append(n.as_str());
    s
}

pub fn baking_rights_query(delegate: &str, cycle: i32) -> (res: String)
    ensures
        res@ == baking_rights_query_text(delegate@, cycle as int),
{
    let mut s = String::from_str("?delegate=");
    s.append(delegate);
    s.append("&max_priority=0&cycle=");
    let n = i64_to_string(cycle as i64);
    s.append(n.as_str());
    s
}

} // verus!
