//! The local pool server: which pool a request goes to, what is done with
//! it, and what a chain update sets off.
//!
//! The server itself moves no message. Its caller takes requests and chain
//! updates from its channels, does what the server says, and sends the
//! answers.

use crate::chain::{BalanceUpdate, MinedOp};
use crate::entity::Entity;
use crate::error::MempoolError;
use crate::primitives::{Address, H256, U256};
use crate::search::{first_where, lemma_first_where_is, lemma_first_where_none};
use crate::user_operation::{PoolOperation, UserOperation};
use std::sync::Arc;
use vstd::prelude::*;

verus! {

/// Where an operation came from.
#[derive(Clone, Copy, Debug, PartialEq, Eq, Structural)]
pub enum OperationOrigin {
    /// From a client of this node.
    Local,
    /// From another node.
    External,
}

/// How an entity fell out of favour.
#[derive(Clone, Copy, Debug, PartialEq, Eq, Structural)]
pub enum EntityUpdateType {
    /// An unstaked entity made an operation invalid.
    UnstakedInvalidation,
    /// A staked entity made an operation invalid.
    StakedInvalidation,
}

/// An entity that fell out of favour, and how.
#[derive(Clone, Copy, Debug, PartialEq, Eq, Structural)]
pub struct EntityUpdate {
    pub entity: Entity,
    pub update_type: EntityUpdateType,
}

/// What is known of the conduct of an address.
#[derive(Clone, Copy, Debug, PartialEq, Eq, Structural)]
pub struct Reputation {
    pub address: Address,
    pub ops_seen: u64,
    pub ops_included: u64,
}

/// How an address stands.
#[derive(Clone, Copy, Debug, PartialEq, Eq, Structural)]
pub enum ReputationStatus {
    /// In good standing.
    Normal,
    /// Held to a few operations.
    Throttled,
    /// Kept out.
    Banned,
}

/// What an address has staked.
#[derive(Clone, Copy, Debug, PartialEq, Eq, Structural)]
pub struct StakeInfo {
    pub stake: U256,
    pub unstake_delay_sec: u32,
}

/// Whether an address counts as staked, and what it has staked.
#[derive(Clone, Copy, Debug, PartialEq, Eq, Structural)]
pub struct StakeStatus {
    pub is_staked: bool,
    pub stake_info: StakeInfo,
}

/// The latest block of the chain.
#[derive(Clone, Copy, Debug, PartialEq, Eq, Structural, Default)]
pub struct NewHead {
    pub block_hash: H256,
    pub block_number: u64,
}

/// What changed on the chain since the last update.
#[derive(Clone, Debug, PartialEq, Eq)]
pub struct ChainUpdate {
    pub latest_block_number: u64,
    pub latest_block_hash: H256,
    pub latest_block_timestamp: u64,
    pub earliest_remembered_block_number: u64,
    pub reorg_depth: u64,
    pub mined_ops: Vec<MinedOp>,
    pub unmined_ops: Vec<MinedOp>,
    pub entity_balance_updates: Vec<BalanceUpdate>,
    pub unmined_entity_balance_updates: Vec<BalanceUpdate>,
}

/// Why the server did not do what it was asked to.
#[derive(Clone, Copy, Debug, PartialEq, Eq, Structural)]
pub enum PoolServerError {
    /// The pool refused.
    MempoolError(MempoolError),
    /// The answer was not one to the request.
    UnexpectedResponse,
    /// The server is gone.
    Closed,
}

/// What the server can be asked.
#[derive(Debug)]
pub enum ServerRequestKind {
    GetSupportedEntryPoints,
    AddOp { entry_point: Address, op: UserOperation, origin: OperationOrigin },
    GetOps { entry_point: Address, max_ops: u64, shard_index: u64 },
    GetOpByHash { hash: H256 },
    RemoveOps { entry_point: Address, ops: Vec<H256> },
    UpdateEntities { entry_point: Address, entity_updates: Vec<EntityUpdate> },
    DebugClearState { clear_mempool: bool, clear_reputation: bool, clear_paymaster: bool },
    AdminSetTracking { entry_point: Address, paymaster: bool, reputation: bool },
    DebugDumpMempool { entry_point: Address },
    DebugSetReputations { entry_point: Address, reputations: Vec<Reputation> },
    DebugDumpReputation { entry_point: Address },
    GetReputationStatus { entry_point: Address, address: Address },
    GetStakeStatus { entry_point: Address, address: Address },
    SubscribeNewHeads,
}

/// What the server answers.
#[derive(Debug)]
#[allow(inconsistent_fields)]
pub enum ServerResponse {
    GetSupportedEntryPoints { entry_points: Vec<Address> },
    AddOp { hash: H256 },
    GetOps { ops: Vec<Arc<PoolOperation>> },
    GetOpByHash { op: Option<Arc<PoolOperation>> },
    RemoveOps,
    UpdateEntities,
    DebugClearState,
    AdminSetTracking,
    DebugDumpMempool { ops: Vec<Arc<PoolOperation>> },
    DebugSetReputations,
    DebugDumpReputation { reputations: Vec<Reputation> },
    GetReputationStatus { status: ReputationStatus },
    GetStakeStatus { status: StakeStatus },
    /// The caller holds the stream of new heads that goes with this answer.
    SubscribeNewHeads,
}

/// What is to be done with a request.
#[derive(Clone, Copy, Debug, PartialEq, Eq, Structural)]
pub enum Dispatch {
    /// Answer with the entry points that the server serves.
    ListEntryPoints,
    /// Answer with a new stream of new heads.
    Subscribe,
    /// Ask every pool, in the loop of the server.
    EveryPool,
    /// Ask the pool at this place, in the loop of the server.
    Inline { pool: usize },
    /// Ask the pool at this place in a task of its own, which sends the
    /// answer, so that the loop of the server goes on meanwhile.
    Spawn { pool: usize },
    /// Answer that no pool serves the entry point.
    Reject { error: PoolServerError },
}

/// One thing that a chain update sets off.
#[derive(Clone, Copy, Debug, PartialEq, Eq, Structural)]
pub enum ChainUpdateStep {
    /// Hand the update to the pool at this place.
    UpdatePool { pool: usize },
    /// Tell the subscribers of the new head.
    PublishHead { head: NewHead },
}

/// What a subscriber to the new heads gets from its channel.
#[derive(Clone, Copy, Debug, PartialEq, Eq, Structural)]
pub enum HeadEvent {
    /// The next head.
    Head { head: NewHead },
    /// The subscriber was too slow, and this many heads are lost to it.
    Lagged { missed: u64 },
    /// The server is gone.
    Closed,
}

/// What the stream of new heads does on what it gets from its channel.
#[derive(Clone, Copy, Debug, PartialEq, Eq, Structural)]
pub enum HeadStep {
    /// Hand the head on, and go on.
    Yield { head: NewHead },
    /// Take note of the heads that are lost, and go on with the next.
    Skip { missed: u64 },
    /// End the stream.
    End,
}

/// What the stream of new heads does on what it gets from its channel: a
/// head is handed on, heads that are lost are noted without ending the
/// stream, and the stream ends when the server is gone.
pub fn new_head_step(event: HeadEvent) -> (step: HeadStep)
    ensures
        step == match event {
            HeadEvent::Head { head } => HeadStep::Yield { head },
            HeadEvent::Lagged { missed } => HeadStep::Skip { missed },
            HeadEvent::Closed => HeadStep::End,
        },
{
    match event {
        HeadEvent::Head { head } => HeadStep::Yield { head },
        HeadEvent::Lagged { missed } => HeadStep::Skip { missed },
        HeadEvent::Closed => HeadStep::End,
    }
}

/// Whether a server serves.
#[derive(Clone, Copy, Debug, PartialEq, Eq, Structural)]
pub enum ServerStatus {
    Serving,
    NotServing,
}

/// The health of the server: it serves exactly when it answers the question
/// for its entry points.
pub fn health_status(entry_points: &Result<Vec<Address>, PoolServerError>) -> (status: ServerStatus)
    ensures
        status == if entry_points is Ok {
            ServerStatus::Serving
        } else {
            ServerStatus::NotServing
        },
{
    match entry_points {
        Ok(_) => ServerStatus::Serving,
        Err(_) => ServerStatus::NotServing,
    }
}

/// The property of being `entry_point`.
pub open spec fn is_entry_point(entry_point: Address) -> spec_fn(Address) -> bool {
    |address: Address| address == entry_point
}

impl ServerRequestKind {
    /// The entry point whose pool the request is for, if it is for one.
    pub open spec fn spec_entry_point(self) -> Option<Address> {
        match self {
            ServerRequestKind::AddOp { entry_point, .. } => Some(entry_point),
            ServerRequestKind::GetOps { entry_point, .. } => Some(entry_point),
            ServerRequestKind::RemoveOps { entry_point, .. } => Some(entry_point),
            ServerRequestKind::UpdateEntities { entry_point, .. } => Some(entry_point),
            ServerRequestKind::AdminSetTracking { entry_point, .. } => Some(entry_point),
            ServerRequestKind::DebugDumpMempool { entry_point } => Some(entry_point),
            ServerRequestKind::DebugSetReputations { entry_point, .. } => Some(entry_point),
            ServerRequestKind::DebugDumpReputation { entry_point } => Some(entry_point),
            ServerRequestKind::GetReputationStatus { entry_point, .. } => Some(entry_point),
            ServerRequestKind::GetStakeStatus { entry_point, .. } => Some(entry_point),
            _ => None,
        }
    }

    /// Whether the request may take long, so that it gets a task of its
    /// own: letting an operation in, and looking a stake up.
    pub open spec fn spec_is_long_running(self) -> bool {
        self is AddOp || self is GetStakeStatus
    }

    /// The entry point whose pool the request is for, if it is for one.
    pub fn entry_point(&self) -> (entry_point: Option<Address>)
        ensures
            entry_point == self.spec_entry_point(),
    {
        match self {
            ServerRequestKind::AddOp { entry_point, .. } => Some(*entry_point),
            ServerRequestKind::GetOps { entry_point, .. } => Some(*entry_point),
            ServerRequestKind::RemoveOps { entry_point, .. } => Some(*entry_point),
            ServerRequestKind::UpdateEntities { entry_point, .. } => Some(*entry_point),
            ServerRequestKind::AdminSetTracking { entry_point, .. } => Some(*entry_point),
            ServerRequestKind::DebugDumpMempool { entry_point } => Some(*entry_point),
            ServerRequestKind::DebugSetReputations { entry_point, .. } => Some(*entry_point),
            ServerRequestKind::DebugDumpReputation { entry_point } => Some(*entry_point),
            ServerRequestKind::GetReputationStatus { entry_point, .. } => Some(*entry_point),
            ServerRequestKind::GetStakeStatus { entry_point, .. } => Some(*entry_point),
            _ => None,
        }
    }

    /// Whether the request may take long.
    pub fn is_long_running(&self) -> (r: bool)
        ensures
            r == self.spec_is_long_running(),
    {
        match self {
            ServerRequestKind::AddOp { .. } => true,
            ServerRequestKind::GetStakeStatus { .. } => true,
            _ => false,
        }
    }
}

/// The entry points that a server serves, each with a pool at the same
/// place with its caller.
#[derive(Debug)]
pub struct LocalPoolServerRunner {
    entry_points: Vec<Address>,
}

impl View for LocalPoolServerRunner {
    type V = Seq<Address>;

    closed spec fn view(&self) -> Seq<Address> {
        self.entry_points@
    }
}

/// What is to be done with `request` by a server of `entry_points`.
pub open spec fn dispatch_of(entry_points: Seq<Address>, request: ServerRequestKind) -> Dispatch {
    match request.spec_entry_point() {
        Some(entry_point) => {
            let pool = first_where(entry_points, is_entry_point(entry_point));
            if pool >= entry_points.len() {
                Dispatch::Reject {
                    error: PoolServerError::MempoolError(
                        MempoolError::UnknownEntryPoint(entry_point),
                    ),
                }
            } else if request.spec_is_long_running() {
                Dispatch::Spawn { pool: pool as usize }
            } else {
                Dispatch::Inline { pool: pool as usize }
            }
        },
        None => match request {
            ServerRequestKind::GetSupportedEntryPoints => Dispatch::ListEntryPoints,
            ServerRequestKind::SubscribeNewHeads => Dispatch::Subscribe,
            _ => Dispatch::EveryPool,
        },
    }
}

/// What a chain update sets off with a server of `pools` pools: every pool
/// gets the update, in the order of the pools, and then the subscribers
/// hear of the new head.
pub open spec fn chain_update_steps(pools: nat, head: NewHead) -> Seq<ChainUpdateStep> {
    Seq::new(pools, |i: int| ChainUpdateStep::UpdatePool { pool: i as usize }).push(
        ChainUpdateStep::PublishHead { head },
    )
}

/// On a chain update every pool takes the update in, each once and in the
/// order of the pools, and the head is published after that and only once.
pub proof fn lemma_pools_before_head(pools: nat, head: NewHead)
    requires
        pools <= usize::MAX,
    ensures
        chain_update_steps(pools, head).len() == pools + 1,
        chain_update_steps(pools, head).last() == (ChainUpdateStep::PublishHead { head }),
        forall|i: int|
            0 <= i < pools ==> #[trigger] chain_update_steps(pools, head)[i]
                == (ChainUpdateStep::UpdatePool { pool: i as usize }),
        forall|i: int, j: int|
            0 <= i < j < pools ==> chain_update_steps(pools, head)[i] != chain_update_steps(
                pools,
                head,
            )[j],
{
}

impl LocalPoolServerRunner {
    /// A server of the given entry points. An entry point that is named
    /// twice is served by the pool at the first of its places.
    pub fn new(entry_points: Vec<Address>) -> (runner: LocalPoolServerRunner)
        ensures
            runner@ == entry_points@,
    {
        LocalPoolServerRunner { entry_points }
    }

    /// The entry points that the server serves.
    pub fn get_supported_entry_points(&self) -> (entry_points: Vec<Address>)
        ensures
            entry_points@ == self@,
    {
        let mut entry_points: Vec<Address> = Vec::new();
        let mut i: usize = 0;
        while i < self.entry_points.len()
            invariant
                i <= self.entry_points@.len(),
                entry_points@ == self.entry_points@.subrange(0, i as int),
            decreases self.entry_points@.len() - i,
        {
            entry_points.push(self.entry_points[i]);
            i += 1;
            assert(entry_points@ =~= self.entry_points@.subrange(0, i as int));
        }
        assert(self.entry_points@.subrange(0, i as int) =~= self.entry_points@);
        entry_points
    }

    /// The place of the pool that serves `entry_point`; fails with
    /// `UnknownEntryPoint` where none does.
    pub fn get_pool(&self, entry_point: Address) -> (pool: Result<usize, PoolServerError>)
        ensures
            pool == if first_where(self@, is_entry_point(entry_point)) < self@.len() {
                Ok::<usize, PoolServerError>(
                    first_where(self@, is_entry_point(entry_point)) as usize,
                )
            } else {
                Err::<usize, PoolServerError>(
                    PoolServerError::MempoolError(MempoolError::UnknownEntryPoint(entry_point)),
                )
            },
    {
        let mut at: usize = 0;
        while at < self.entry_points.len()
            invariant
                at <= self.entry_points@.len(),
                forall|j: int| 0 <= j < at ==> self.entry_points@[j] != entry_point,
            decreases self.entry_points@.len() - at,
        {
            if self.entry_points[at] == entry_point {
                proof {
                    lemma_first_where_is(self.entry_points@, is_entry_point(entry_point), at as int);
                }
                return Ok(at);
            }
            at += 1;
        }
        proof {
            lemma_first_where_none(self.entry_points@, is_entry_point(entry_point));
        }
        Err(PoolServerError::MempoolError(MempoolError::UnknownEntryPoint(entry_point)))
    }

    /// What is to be done with a request.
    ///
    /// A request for an entry point that no pool serves is rejected. A
    /// request that may take long gets a task of its own; every other
    /// request for an entry point is answered in the loop of the server. A
    /// request for an operation by its hash, and one to clear the state,
    /// go to every pool.
    pub fn dispatch(&self, request: &ServerRequestKind) -> (dispatch: Dispatch)
        ensures
            dispatch == dispatch_of(self@, *request),
    {
        match request.entry_point() {
            Some(entry_point) => match self.get_pool(entry_point) {
                Err(error) => Dispatch::Reject { error },
                Ok(pool) => {
                    if request.is_long_running() {
                        Dispatch::Spawn { pool }
                    } else {
                        Dispatch::Inline { pool }
                    }
                },
            },
            None => match request {
                ServerRequestKind::GetSupportedEntryPoints => Dispatch::ListEntryPoints,
                ServerRequestKind::SubscribeNewHeads => Dispatch::Subscribe,
                _ => Dispatch::EveryPool,
            },
        }
    }

    /// What a chain update sets off: the pools take the update in before
    /// the subscribers hear of the new head, so that whoever asks a pool on
    /// hearing of a head finds the operations of that block gone.
    pub fn on_chain_update(&self, latest_block_hash: H256, latest_block_number: u64) -> (steps:
        Vec<ChainUpdateStep>)
        ensures
            steps@ == chain_update_steps(
                self@.len(),
                NewHead { block_hash: latest_block_hash, block_number: latest_block_number },
            ),
    {
        let mut steps: Vec<ChainUpdateStep> = Vec::new();
        let mut pool: usize = 0;
        while pool < self.entry_points.len()
            invariant
                pool <= self.entry_points@.len(),
                steps@ == Seq::new(
                    pool as nat,
                    |i: int| ChainUpdateStep::UpdatePool { pool: i as usize },
                ),
            decreases self.entry_points@.len() - pool,
        {
            steps.push(ChainUpdateStep::UpdatePool { pool });
            pool += 1;
            assert(steps@ =~= Seq::new(
                pool as nat,
                |i: int| ChainUpdateStep::UpdatePool { pool: i as usize },
            ));
        }
        steps.push(
            ChainUpdateStep::PublishHead {
                head: NewHead { block_hash: latest_block_hash, block_number: latest_block_number },
            },
        );
        steps
    }
}

impl ServerResponse {
    /// The entry points, from the answer to `GetSupportedEntryPoints`.
    pub fn into_supported_entry_points(self) -> (result: Result<Vec<Address>, PoolServerError>)
        ensures
            result == match self {
                ServerResponse::GetSupportedEntryPoints { entry_points } => Ok::<
                    Vec<Address>,
                    PoolServerError,
                >(entry_points),
                _ => Err::<Vec<Address>, PoolServerError>(PoolServerError::UnexpectedResponse),
            },
    {
        match self {
            ServerResponse::GetSupportedEntryPoints { entry_points } => Ok(entry_points),
            _ => Err(PoolServerError::UnexpectedResponse),
        }
    }

    /// The hash, from the answer to `AddOp`.
    pub fn into_added_hash(self) -> (result: Result<H256, PoolServerError>)
        ensures
            result == match self {
                ServerResponse::AddOp { hash } => Ok::<H256, PoolServerError>(hash),
                _ => Err::<H256, PoolServerError>(PoolServerError::UnexpectedResponse),
            },
    {
        match self {
            ServerResponse::AddOp { hash } => Ok(hash),
            _ => Err(PoolServerError::UnexpectedResponse),
        }
    }

    /// The operations, from the answer to `GetOps`.
    pub fn into_ops(self) -> (result: Result<Vec<Arc<PoolOperation>>, PoolServerError>)
        ensures
            result == match self {
                ServerResponse::GetOps { ops } => Ok::<
                    Vec<Arc<PoolOperation>>,
                    PoolServerError,
                >(ops),
                _ => Err::<Vec<Arc<PoolOperation>>, PoolServerError>(
                    PoolServerError::UnexpectedResponse,
                ),
            },
    {
        match self {
            ServerResponse::GetOps { ops } => Ok(ops),
            _ => Err(PoolServerError::UnexpectedResponse),
        }
    }

    /// The operation, from the answer to `GetOpByHash`.
    pub fn into_op_by_hash(self) -> (result: Result<Option<Arc<PoolOperation>>, PoolServerError>)
        ensures
            result == match self {
                ServerResponse::GetOpByHash { op } => Ok::<
                    Option<Arc<PoolOperation>>,
                    PoolServerError,
                >(op),
                _ => Err::<Option<Arc<PoolOperation>>, PoolServerError>(
                    PoolServerError::UnexpectedResponse,
                ),
            },
    {
        match self {
            ServerResponse::GetOpByHash { op } => Ok(op),
            _ => Err(PoolServerError::UnexpectedResponse),
        }
    }

    /// The operations, from the answer to `DebugDumpMempool`.
    pub fn into_dumped_mempool(self) -> (result: Result<Vec<Arc<PoolOperation>>, PoolServerError>)
        ensures
            result == match self {
                ServerResponse::DebugDumpMempool { ops } => Ok::<
                    Vec<Arc<PoolOperation>>,
                    PoolServerError,
                >(ops),
                _ => Err::<Vec<Arc<PoolOperation>>, PoolServerError>(
                    PoolServerError::UnexpectedResponse,
                ),
            },
    {
        match self {
            ServerResponse::DebugDumpMempool { ops } => Ok(ops),
            _ => Err(PoolServerError::UnexpectedResponse),
        }
    }

    /// The reputations, from the answer to `DebugDumpReputation`.
    pub fn into_dumped_reputation(self) -> (result: Result<Vec<Reputation>, PoolServerError>)
        ensures
            result == match self {
                ServerResponse::DebugDumpReputation { reputations } => Ok::<
                    Vec<Reputation>,
                    PoolServerError,
                >(reputations),
                _ => Err::<Vec<Reputation>, PoolServerError>(PoolServerError::UnexpectedResponse),
            },
    {
        match self {
            ServerResponse::DebugDumpReputation { reputations } => Ok(reputations),
            _ => Err(PoolServerError::UnexpectedResponse),
        }
    }

    /// The status, from the answer to `GetReputationStatus`.
    pub fn into_reputation_status(self) -> (result: Result<ReputationStatus, PoolServerError>)
        ensures
            result == match self {
                ServerResponse::GetReputationStatus { status } => Ok::<
                    ReputationStatus,
                    PoolServerError,
                >(status),
                _ => Err::<ReputationStatus, PoolServerError>(PoolServerError::UnexpectedResponse),
            },
    {
        match self {
            ServerResponse::GetReputationStatus { status } => Ok(status),
            _ => Err(PoolServerError::UnexpectedResponse),
        }
    }

    /// The status, from the answer to `GetStakeStatus`.
    pub fn into_stake_status(self) -> (result: Result<StakeStatus, PoolServerError>)
        ensures
            result == match self {
                ServerResponse::GetStakeStatus { status } => Ok::<StakeStatus, PoolServerError>(
                    status,
                ),
                _ => Err::<StakeStatus, PoolServerError>(PoolServerError::UnexpectedResponse),
            },
    {
        match self {
            ServerResponse::GetStakeStatus { status } => Ok(status),
            _ => Err(PoolServerError::UnexpectedResponse),
        }
    }

    /// Whether the answer is the bare acknowledgement of `request`: of
    /// `RemoveOps`, `UpdateEntities`, `DebugClearState`, `AdminSetTracking`,
    /// `DebugSetReputations` or `SubscribeNewHeads`.
    pub open spec fn acknowledges(self, request: ServerRequestKind) -> bool {
        ||| (self is RemoveOps && request is RemoveOps)
        ||| (self is UpdateEntities && request is UpdateEntities)
        ||| (self is DebugClearState && request is DebugClearState)
        ||| (self is AdminSetTracking && request is AdminSetTracking)
        ||| (self is DebugSetReputations && request is DebugSetReputations)
        ||| (self is SubscribeNewHeads && request is SubscribeNewHeads)
    }

    /// Succeeds where the answer is the bare acknowledgement of `request`.
    pub fn into_acknowledgement(self, request: &ServerRequestKind) -> (result: Result<
        (),
        PoolServerError,
    >)
        ensures
            result == if self.acknowledges(*request) {
                Ok::<(), PoolServerError>(())
            } else {
                Err::<(), PoolServerError>(PoolServerError::UnexpectedResponse)
            },
    {
        match (self, request) {
            (ServerResponse::RemoveOps, ServerRequestKind::RemoveOps { .. }) => Ok(()),
            (ServerResponse::UpdateEntities, ServerRequestKind::UpdateEntities { .. }) => Ok(()),
            (ServerResponse::DebugClearState, ServerRequestKind::DebugClearState { .. }) => Ok(()),
            (ServerResponse::AdminSetTracking, ServerRequestKind::AdminSetTracking { .. }) => Ok(
                (),
            ),
            (
                ServerResponse::DebugSetReputations,
                ServerRequestKind::DebugSetReputations { .. },
            ) => Ok(()),
            (ServerResponse::SubscribeNewHeads, ServerRequestKind::SubscribeNewHeads) => Ok(()),
            _ => Err(PoolServerError::UnexpectedResponse),
        }
    }
}

} // verus!
