//! The operation pool as a mathematical value, and what each change of the
//! pool does to it.

use crate::chain::MinedOp;
use crate::entity::{Entity, EntityType};
use crate::error::{MempoolError, OtherError};
use crate::ordered::{
    entry_size, follows, hash_is, id_is, mined_hash_is, mined_size, MinedEntry, MinedNote,
    OrderedPoolOperation, PoolEntry,
};
use crate::paymaster::{PaymasterMetadata, PaymasterView};
use crate::primitives::{increased_by_percent, Address, H256, U256};
use crate::search::{first_where, picked, retained};
use crate::sums::sum_of;
use crate::user_operation::{PoolOperation, Timestamp, UserOperation, UserOperationId};
use std::sync::Arc;
use vstd::prelude::*;

verus! {

/// The settings of one pool.
#[derive(Clone, Copy, Debug, PartialEq, Eq, Structural)]
pub struct PoolInnerConfig {
    /// The entry point whose operations the pool holds.
    pub entry_point: Address,
    /// The chain that the entry point is on.
    pub chain_id: u64,
    /// The most bytes that the pooled operations may take.
    pub max_size_of_pool_bytes: usize,
    /// By how many hundredths a replacement must raise both fees.
    pub min_replacement_fee_increase_percentage: u64,
    /// How many operations of a throttled entity may stay in the pool.
    pub throttled_entity_mempool_count: u64,
    /// For how many blocks an operation of a throttled entity may stay.
    pub throttled_entity_live_blocks: u64,
    /// Whether reservations are made with paymasters.
    pub paymaster_tracking_enabled: bool,
}

/// The settings of a pool as they are configured.
#[derive(Clone, Copy, Debug, PartialEq, Eq, Structural)]
pub struct PoolConfig {
    /// The entry point whose operations the pool holds.
    pub entry_point: Address,
    /// The chain that the entry point is on.
    pub chain_id: u64,
    /// The most bytes that the pooled operations may take.
    pub max_size_of_pool_bytes: usize,
    /// By how many hundredths a replacement must raise both fees.
    pub min_replacement_fee_increase_percentage: u64,
    /// How many operations of a throttled entity may stay in the pool.
    pub throttled_entity_mempool_count: u64,
    /// For how many blocks an operation of a throttled entity may stay.
    pub throttled_entity_live_blocks: u64,
    /// Whether reservations are made with paymasters.
    pub paymaster_tracking_enabled: bool,
}

impl From<PoolConfig> for PoolInnerConfig {
    fn from(config: PoolConfig) -> (inner: PoolInnerConfig) {
        PoolInnerConfig {
            entry_point: config.entry_point,
            chain_id: config.chain_id,
            max_size_of_pool_bytes: config.max_size_of_pool_bytes,
            min_replacement_fee_increase_percentage: config.min_replacement_fee_increase_percentage,
            throttled_entity_mempool_count: config.throttled_entity_mempool_count,
            throttled_entity_live_blocks: config.throttled_entity_live_blocks,
            paymaster_tracking_enabled: config.paymaster_tracking_enabled,
        }
    }
}

impl vstd::std_specs::convert::FromSpecImpl<PoolConfig> for PoolInnerConfig {
    open spec fn obeys_from_spec() -> bool {
        true
    }

    open spec fn from_spec(config: PoolConfig) -> PoolInnerConfig {
        PoolInnerConfig {
            entry_point: config.entry_point,
            chain_id: config.chain_id,
            max_size_of_pool_bytes: config.max_size_of_pool_bytes,
            min_replacement_fee_increase_percentage: config.min_replacement_fee_increase_percentage,
            throttled_entity_mempool_count: config.throttled_entity_mempool_count,
            throttled_entity_live_blocks: config.throttled_entity_live_blocks,
            paymaster_tracking_enabled: config.paymaster_tracking_enabled,
        }
    }
}

/// What one use of `address` in the role `kind` counts: one for an entry
/// that has it, nothing for one that has not.
pub open spec fn uses(kind: EntityType, address: Address) -> spec_fn(PoolEntry) -> nat {
    |entry: PoolEntry|
        if entry.op.po.spec_entity_address(kind) == Some(address) {
            1nat
        } else {
            0nat
        }
}

/// The property of being valid only before `deadline`.
pub open spec fn expires_before(deadline: Timestamp) -> spec_fn(PoolEntry) -> bool {
    |entry: PoolEntry| entry.op.po.valid_time_range.valid_until.secs < deadline.secs
}

/// The property of having `entity` among the entities that simulation
/// recorded.
pub open spec fn declares(entity: Entity) -> spec_fn(PoolEntry) -> bool {
    |entry: PoolEntry| entry.op.po.spec_contains_entity(entity)
}

/// The hash of an entry.
pub open spec fn hash_of() -> spec_fn(PoolEntry) -> H256 {
    |entry: PoolEntry| entry.hash
}

/// The hash of an entry, with the time until which its operation is valid.
pub open spec fn hash_and_deadline() -> spec_fn(PoolEntry) -> (H256, Timestamp) {
    |entry: PoolEntry| (entry.hash, entry.op.po.valid_time_range.valid_until)
}

/// The property of having been mined at the block `block` or later.
pub open spec fn mined_since(block: u64) -> spec_fn(MinedEntry) -> bool {
    |entry: MinedEntry| entry.block_number >= block
}

/// Whether an operation simulated at `sim_block_number` is too old for a
/// throttled entity when the chain is at `head`.
pub open spec fn is_stale(config: PoolInnerConfig, entry: PoolEntry, head: u64) -> bool {
    entry.op.po.sim_block_number + config.throttled_entity_live_blocks < head
}

/// How many more operations of a throttled entity may stay, after `ops` have
/// been looked at from the best down.
pub open spec fn throttle_budget(
    config: PoolInnerConfig,
    ops: Seq<PoolEntry>,
    entity: Entity,
    head: u64,
) -> nat
    decreases ops.len(),
{
    if ops.len() == 0 {
        config.throttled_entity_mempool_count as nat
    } else {
        let before = throttle_budget(config, ops.drop_last(), entity, head);
        if declares(entity)(ops.last()) && !is_stale(config, ops.last(), head) && before > 0 {
            (before - 1) as nat
        } else {
            before
        }
    }
}

/// Whether throttling `entity` removes the entry at `at`: it declares the
/// entity, and it is too old or enough better ones stay already.
pub open spec fn throttles(
    config: PoolInnerConfig,
    ops: Seq<PoolEntry>,
    entity: Entity,
    head: u64,
    at: int,
) -> bool {
    declares(entity)(ops[at]) && (is_stale(config, ops[at], head) || throttle_budget(
        config,
        ops.subrange(0, at),
        entity,
        head,
    ) == 0)
}

/// For each of `ops`, whether throttling `entity` removes it when the chain
/// is at `head`.
pub open spec fn throttle_marks_of(
    config: PoolInnerConfig,
    ops: Seq<PoolEntry>,
    entity: Entity,
    head: u64,
) -> Seq<bool> {
    Seq::new(ops.len(), |i: int| throttles(config, ops, entity, head, i))
}

/// The hashes of the entries of `ops` that are marked in `marks`, in their
/// order.
pub open spec fn marked_hashes(ops: Seq<PoolEntry>, marks: Seq<bool>) -> Seq<H256>
    decreases ops.len(),
{
    if ops.len() == 0 {
        Seq::empty()
    } else if marks[ops.len() - 1] {
        marked_hashes(ops.drop_last(), marks).push(ops.last().hash)
    } else {
        marked_hashes(ops.drop_last(), marks)
    }
}

/// The entries of `ops` that are not marked in `marks`, in their order.
pub open spec fn unmarked(ops: Seq<PoolEntry>, marks: Seq<bool>) -> Seq<PoolEntry>
    decreases ops.len(),
{
    if ops.len() == 0 {
        Seq::empty()
    } else if marks[ops.len() - 1] {
        unmarked(ops.drop_last(), marks)
    } else {
        unmarked(ops.drop_last(), marks).push(ops.last())
    }
}

/// The property of being valid at `deadline` or later.
pub open spec fn valid_at(deadline: Timestamp) -> spec_fn(PoolEntry) -> bool {
    |entry: PoolEntry| !(entry.op.po.valid_time_range.valid_until.secs < deadline.secs)
}

/// The property of not having `entity` among the entities that simulation
/// recorded.
pub open spec fn lacks(entity: Entity) -> spec_fn(PoolEntry) -> bool {
    |entry: PoolEntry| !entry.op.po.spec_contains_entity(entity)
}

/// The pool as a mathematical value.
pub struct PoolView {
    pub config: PoolInnerConfig,
    /// The pooled operations, in the order in which a bundle takes them.
    pub ops: Seq<PoolEntry>,
    /// The operations that blocks included, in the order in which they left
    /// the pool.
    pub mined: Seq<MinedEntry>,
    /// The number that the next operation comes in under.
    pub submission_id: u64,
    /// The ledger of paymaster balances.
    pub paymaster: PaymasterView,
}

impl PoolView {
    /// The pool that holds nothing.
    pub open spec fn empty(config: PoolInnerConfig) -> PoolView {
        PoolView {
            config,
            ops: Seq::empty(),
            mined: Seq::empty(),
            submission_id: 0,
            paymaster: PaymasterView::empty(config.paymaster_tracking_enabled),
        }
    }

    /// Where the operation with the hash `hash` stands; the number of
    /// operations where there is none.
    pub open spec fn hash_index(self, hash: H256) -> int {
        first_where(self.ops, hash_is(hash))
    }

    /// Where the operation with the sender and nonce `id` stands; the number
    /// of operations where there is none.
    pub open spec fn id_index(self, id: UserOperationId) -> int {
        first_where(self.ops, id_is(id))
    }

    /// Where the mined operation with the hash `hash` is kept; the number of
    /// mined operations where there is none.
    pub open spec fn mined_index(self, hash: H256) -> int {
        first_where(self.mined, mined_hash_is(hash))
    }

    /// The pooled operation with the hash `hash`.
    pub open spec fn by_hash(self, hash: H256) -> Option<PoolEntry> {
        if self.hash_index(hash) < self.ops.len() {
            Some(self.ops[self.hash_index(hash)])
        } else {
            None
        }
    }

    /// The pooled operation with the sender and nonce `id`.
    pub open spec fn by_id(self, id: UserOperationId) -> Option<PoolEntry> {
        if self.id_index(id) < self.ops.len() {
            Some(self.ops[self.id_index(id)])
        } else {
            None
        }
    }

    /// The operation with the hash `hash`, as callers get it.
    pub open spec fn operation(self, hash: H256) -> Option<Arc<PoolOperation>> {
        match self.by_hash(hash) {
            Some(entry) => Some(entry.op.po),
            None => None,
        }
    }

    /// The operations in the order in which a bundle takes them.
    pub open spec fn best(self) -> Seq<Arc<PoolOperation>> {
        self.ops.map_values(|entry: PoolEntry| entry.op.po)
    }

    /// The bytes that the pooled operations take.
    pub open spec fn size(self) -> nat {
        sum_of(self.ops, entry_size())
    }

    /// The bytes that the mined operations take.
    pub open spec fn cache_size(self) -> nat {
        sum_of(self.mined, mined_size())
    }

    /// How many pooled operations have `address` in the role `kind`.
    pub open spec fn count(self, address: Address, kind: EntityType) -> nat {
        sum_of(self.ops, uses(kind, address))
    }

    /// How many times pooled operations use `address`, over all roles.
    pub open spec fn address_count(self, address: Address) -> nat {
        self.count(address, EntityType::Account) + self.count(address, EntityType::Paymaster)
            + self.count(address, EntityType::Aggregator) + self.count(
            address,
            EntityType::Factory,
        )
    }

    /// The pooled operations stand in the order of a bundle; no two share a
    /// hash, a sender and nonce, or a submission id; no two mined
    /// operations share a hash; every submission id in use, pooled or
    /// mined, is used once and lies below the next one; the ledger is well
    /// formed.
    pub open spec fn wf_except_size(self) -> bool {
        &&& forall|i: int, j: int|
            0 <= i < j < self.ops.len() ==> self.ops[i].op.precedes(self.ops[j].op)
        &&& forall|i: int, j: int|
            0 <= i < j < self.ops.len() ==> self.ops[i].hash != self.ops[j].hash
        &&& forall|i: int, j: int|
            0 <= i < j < self.ops.len() ==> self.ops[i].id() != self.ops[j].id()
        &&& forall|i: int, j: int|
            0 <= i < j < self.ops.len() ==> self.ops[i].op.submission_id
                != self.ops[j].op.submission_id
        &&& forall|i: int|
            0 <= i < self.ops.len() ==> (#[trigger] self.ops[i]).op.submission_id
                < self.submission_id
        &&& forall|i: int, j: int|
            0 <= i < j < self.mined.len() ==> self.mined[i].hash != self.mined[j].hash
        &&& forall|i: int, j: int|
            0 <= i < j < self.mined.len() ==> self.mined[i].op.submission_id
                != self.mined[j].op.submission_id
        &&& forall|i: int|
            0 <= i < self.mined.len() ==> (#[trigger] self.mined[i]).op.submission_id
                < self.submission_id
        &&& forall|i: int, j: int|
            0 <= i < self.ops.len() && 0 <= j < self.mined.len() ==> self.ops[i].op.submission_id
                != self.mined[j].op.submission_id
        &&& self.paymaster.wf()
    }

    /// Well formed, and within the size that the settings allow.
    pub open spec fn wf(self) -> bool {
        &&& self.wf_except_size()
        &&& self.size() <= self.config.max_size_of_pool_bytes
    }

    /// Whether a reservation is held for a pooled operation: one with the
    /// sender and nonce of the reservation, which may cost what is reserved.
    pub open spec fn holds_for_pooled(self, fee: crate::paymaster::UserOpFee) -> bool {
        self.id_index(fee.id) < self.ops.len() && self.ops[self.id_index(
            fee.id,
        )].op.po.uo.spec_max_gas_cost() == fee.cost
    }

    /// Whether every reservation in the ledger is held for a pooled
    /// operation.
    pub open spec fn reservations_pooled(self) -> bool {
        forall|i: int|
            0 <= i < self.paymaster.fees.len() ==> self.holds_for_pooled(
                #[trigger] self.paymaster.fees[i],
            )
    }

    /// Whether every reservation in the ledger is held for a pooled
    /// operation, but for one of `id` that reserves `cost`.
    pub open spec fn reservations_pooled_but(self, id: UserOperationId, cost: U256) -> bool {
        forall|i: int|
            0 <= i < self.paymaster.fees.len() ==> ((#[trigger] self.paymaster.fees[i]).id == id
                && self.paymaster.fees[i].cost == cost) || self.holds_for_pooled(
                self.paymaster.fees[i],
            )
    }

    /// The fee that a replacement must offer at least, where the operation
    /// in the pool offers `fee`.
    pub open spec fn replacement_fee(self, fee: U256) -> nat {
        increased_by_percent(fee@, self.config.min_replacement_fee_increase_percentage as nat)
    }

    /// What the pool says of an operation that asks to come in under `hash`:
    /// it is known already; it is underpriced against the operation of the
    /// same sender and nonce; it replaces that operation, whose hash is
    /// given; or it replaces nothing.
    pub open spec fn check_replacement(self, uo: UserOperation, hash: H256) -> Result<
        Option<H256>,
        MempoolError,
    > {
        if self.hash_index(hash) < self.ops.len() {
            Err(MempoolError::OperationAlreadyKnown)
        } else if self.id_index(uo.spec_id()) < self.ops.len() {
            let existing = self.ops[self.id_index(uo.spec_id())];
            if uo.max_priority_fee_per_gas@ < self.replacement_fee(
                existing.op.po.uo.max_priority_fee_per_gas,
            ) || uo.max_fee_per_gas@ < self.replacement_fee(existing.op.po.uo.max_fee_per_gas) {
                Err(
                    MempoolError::ReplacementUnderpriced(
                        existing.op.po.uo.max_priority_fee_per_gas,
                        existing.op.po.uo.max_fee_per_gas,
                    ),
                )
            } else {
                Ok(Some(existing.hash))
            }
        } else {
            Ok(None)
        }
    }

    /// The pool without the operation at `at`; its reservation is given
    /// back.
    pub open spec fn without(self, at: int) -> PoolView {
        PoolView {
            ops: self.ops.remove(at),
            paymaster: self.paymaster.release(self.ops[at].id()),
            ..self
        }
    }

    /// The pool after `entry` has joined the mined operations with what is
    /// noted of it, in place of one with the same hash.
    pub open spec fn cached(self, entry: PoolEntry, note: MinedNote) -> PoolView {
        let at = self.mined_index(entry.hash);
        let others = if at < self.mined.len() {
            self.mined.remove(at)
        } else {
            self.mined
        };
        PoolView {
            mined: others.push(
                MinedEntry {
                    block_number: note.block_number,
                    debited: note.debited,
                    hash: entry.hash,
                    op: entry.op,
                },
            ),
            ..self
        }
    }

    /// The pool after the operation with the hash `hash` has left it; with a
    /// note of its mining, the operation joins the mined ones.
    pub open spec fn remove(self, hash: H256, note: Option<MinedNote>) -> PoolView {
        let at = self.hash_index(hash);
        if at < self.ops.len() {
            match note {
                Some(mined) => self.without(at).cached(self.ops[at], mined),
                None => self.without(at),
            }
        } else {
            self
        }
    }

    /// Where `op` goes in: before the first operation that it precedes.
    pub open spec fn insert_index(self, op: OrderedPoolOperation) -> int {
        first_where(self.ops, follows(op))
    }

    /// The pool after `entry` has gone in at its place.
    pub open spec fn inserted(self, entry: PoolEntry) -> PoolView {
        PoolView { ops: self.ops.insert(self.insert_index(entry.op), entry), ..self }
    }

    /// Whether the pool is over the size that the settings allow.
    pub open spec fn oversized(self) -> bool {
        self.ops.len() > 0 && self.size() > self.config.max_size_of_pool_bytes
    }

    /// The pool after its worst operations have left it, one by one, until
    /// it is within its size.
    pub open spec fn enforce_size(self) -> PoolView
        decreases self.ops.len(),
    {
        if self.oversized() {
            self.without(self.ops.len() - 1).enforce_size()
        } else {
            self
        }
    }

    /// The hashes of the operations that leave for the size, in the order
    /// in which they leave.
    pub open spec fn evicted(self) -> Seq<H256>
        decreases self.ops.len(),
    {
        if self.oversized() {
            seq![self.ops.last().hash] + self.without(self.ops.len() - 1).evicted()
        } else {
            Seq::empty()
        }
    }

    /// Whether a reservation is made for an operation that comes in with
    /// `meta`: where the operation has a paymaster and `meta` tells of one.
    pub open spec fn reserves(po: PoolOperation, meta: Option<PaymasterMetadata>) -> bool {
        meta is Some && po.uo.spec_paymaster() is Some
    }

    /// The pool after the ledger was asked to back `po`.
    pub open spec fn funded(self, po: PoolOperation, meta: Option<PaymasterMetadata>) -> PoolView {
        if Self::reserves(po, meta) {
            PoolView {
                paymaster: self.paymaster.reserve(
                    po.uo.spec_id(),
                    po.uo.spec_max_gas_cost(),
                    meta->0,
                ),
                ..self
            }
        } else {
            self
        }
    }

    /// Whether the ledger backs `po`.
    pub open spec fn can_fund(self, po: PoolOperation, meta: Option<PaymasterMetadata>) -> bool {
        Self::reserves(po, meta) ==> self.paymaster.can_reserve(
            po.uo.spec_id(),
            po.uo.spec_max_gas_cost(),
            meta->0,
        )
    }

    /// The pool after the operation that `po` replaces, if any, has left it.
    pub open spec fn vacated(self, uo: UserOperation, hash: H256) -> PoolView {
        match self.check_replacement(uo, hash) {
            Ok(Some(replaced)) => self.remove(replaced, None),
            _ => self,
        }
    }

    /// The pool with `po` at its place under `submission_id`, before the
    /// size is looked at. Without a `submission_id` the next one is taken.
    pub open spec fn admitted(
        self,
        po: Arc<PoolOperation>,
        hash: H256,
        submission_id: Option<u64>,
        meta: Option<PaymasterMetadata>,
    ) -> PoolView {
        let funded = self.vacated(po.uo, hash).funded(*po, meta);
        match submission_id {
            Some(given) => funded.inserted(
                PoolEntry { hash, op: OrderedPoolOperation { po, submission_id: given } },
            ),
            None => PoolView {
                submission_id: (funded.submission_id + 1) as u64,
                ..funded
            }.inserted(
                PoolEntry {
                    hash,
                    op: OrderedPoolOperation { po, submission_id: funded.submission_id },
                },
            ),
        }
    }

    /// The pool after `po` has asked to come in under `hash`.
    pub open spec fn add(
        self,
        po: Arc<PoolOperation>,
        hash: H256,
        submission_id: Option<u64>,
        meta: Option<PaymasterMetadata>,
    ) -> PoolView {
        if submission_id is None && self.submission_id == u64::MAX {
            self
        } else if self.check_replacement(po.uo, hash) is Err {
            self
        } else if !self.vacated(po.uo, hash).can_fund(*po, meta) {
            self.vacated(po.uo, hash).funded(*po, meta)
        } else {
            self.admitted(po, hash, submission_id, meta).enforce_size()
        }
    }

    /// What the pool answers to `po` asking to come in under `hash`.
    pub open spec fn add_result(
        self,
        po: Arc<PoolOperation>,
        hash: H256,
        submission_id: Option<u64>,
        meta: Option<PaymasterMetadata>,
    ) -> Result<H256, MempoolError> {
        if submission_id is None && self.submission_id == u64::MAX {
            Err(MempoolError::Other(OtherError::SubmissionIdsExhausted))
        } else if self.check_replacement(po.uo, hash) is Err {
            match self.check_replacement(po.uo, hash) {
                Err(e) => Err(e),
                Ok(_) => Ok(hash),
            }
        } else if !self.vacated(po.uo, hash).can_fund(*po, meta) {
            Err(MempoolError::PaymasterBalanceTooLow)
        } else if self.admitted(po, hash, submission_id, meta).evicted().contains(hash) {
            Err(MempoolError::DiscardedOnInsert)
        } else {
            Ok(hash)
        }
    }

    /// The pool after a block included `mined_op`: the pooled operation of
    /// the same sender and nonce, if there is one, is settled with the
    /// paymaster that holds its reservation and joins the mined
    /// operations, with a note of that paymaster.
    pub open spec fn mine(self, mined_op: MinedOp, block: u64) -> PoolView {
        let at = self.id_index(mined_op.spec_id());
        if at < self.ops.len() {
            PoolView {
                paymaster: self.paymaster.settle(mined_op.spec_id(), mined_op.actual_gas_cost),
                ..self
            }.remove(
                self.ops[at].hash,
                Some(
                    MinedNote {
                        block_number: block,
                        debited: self.paymaster.reserved_with(mined_op.spec_id()),
                    },
                ),
            )
        } else {
            self
        }
    }

    /// The operation that leaves the pool when a block includes `mined_op`.
    pub open spec fn mined_operation(self, mined_op: MinedOp) -> Option<Arc<PoolOperation>> {
        match self.by_id(mined_op.spec_id()) {
            Some(entry) => Some(entry.op.po),
            None => None,
        }
    }

    /// The pool after the paymaster that paid for a mined operation, if one
    /// did, got back what the operation had cost.
    pub open spec fn refunded(self, entry: MinedEntry, actual_cost: U256) -> PoolView {
        match entry.debited {
            Some(paymaster) => PoolView {
                paymaster: self.paymaster.credit(paymaster, actual_cost, true),
                ..self
            },
            None => self,
        }
    }

    /// What the ledger tells of the paymaster of a mined operation.
    pub open spec fn paymaster_meta(self, entry: MinedEntry) -> Option<PaymasterMetadata> {
        match entry.op.po.uo.spec_paymaster() {
            Some(paymaster) => self.paymaster.metadata(paymaster),
            None => None,
        }
    }

    /// The pool after a mined operation that left the mined ones has asked
    /// to come in again, under the submission id that it had: its paymaster
    /// gets back what the operation had cost, and is asked to back it as
    /// the ledger then knows it.
    pub open spec fn put_back(self, entry: MinedEntry, actual_cost: U256) -> PoolView {
        let refunded = self.refunded(entry, actual_cost);
        refunded.add(
            entry.op.po,
            entry.hash,
            Some(entry.op.submission_id),
            refunded.paymaster_meta(entry),
        )
    }

    /// What the pool answers to a mined operation that asks to come in
    /// again.
    pub open spec fn put_back_result(self, entry: MinedEntry, actual_cost: U256) -> Result<
        H256,
        MempoolError,
    > {
        let refunded = self.refunded(entry, actual_cost);
        refunded.add_result(
            entry.op.po,
            entry.hash,
            Some(entry.op.submission_id),
            refunded.paymaster_meta(entry),
        )
    }

    /// The pool after the mined operation at `at` has left the mined ones.
    pub open spec fn uncached(self, at: int) -> PoolView {
        PoolView { mined: self.mined.remove(at), ..self }
    }

    /// The pool after the block of `mined_op` was undone: the operation
    /// kept under the hash of `mined_op` leaves the mined ones and asks to
    /// come into the pool again.
    pub open spec fn unmine(self, mined_op: MinedOp) -> PoolView {
        let at = self.mined_index(mined_op.hash);
        if at < self.mined.len() {
            self.uncached(at).put_back(self.mined[at], mined_op.actual_gas_cost)
        } else {
            self
        }
    }

    /// Whether undoing the block of `mined_op` brings an operation back
    /// into the pool: one is kept under the hash of `mined_op`, and the
    /// pool lets it in.
    pub open spec fn readmits(self, mined_op: MinedOp) -> bool {
        let at = self.mined_index(mined_op.hash);
        at < self.mined.len() && self.uncached(at).put_back_result(
            self.mined[at],
            mined_op.actual_gas_cost,
        ) is Ok
    }

    /// The operation that leaves the mined ones when the block of
    /// `mined_op` is undone.
    pub open spec fn unmined_operation(self, mined_op: MinedOp) -> Option<Arc<PoolOperation>> {
        if self.mined_index(mined_op.hash) < self.mined.len() {
            Some(self.mined[self.mined_index(mined_op.hash)].op.po)
        } else {
            None
        }
    }

    /// The pool after the operations mined before `block` were forgotten.
    pub open spec fn forget(self, block: u64) -> PoolView {
        PoolView { mined: retained(self.mined, mined_since(block)), ..self }
    }

    /// The pool after the marked ones among its first `upto` operations have
    /// left it, the last of them first.
    pub open spec fn purge(self, marks: Seq<bool>, upto: int) -> PoolView
        decreases upto,
    {
        if upto <= 0 {
            self
        } else if marks[upto - 1] {
            self.without(upto - 1).purge(marks, upto - 1)
        } else {
            self.purge(marks, upto - 1)
        }
    }

    /// For each pooled operation, whether it is valid only before
    /// `deadline`.
    pub open spec fn expired_marks(self, deadline: Timestamp) -> Seq<bool> {
        Seq::new(self.ops.len(), |i: int| expires_before(deadline)(self.ops[i]))
    }

    /// For each pooled operation, whether it declares `entity`.
    pub open spec fn entity_marks(self, entity: Entity) -> Seq<bool> {
        Seq::new(self.ops.len(), |i: int| declares(entity)(self.ops[i]))
    }

    /// For each pooled operation, whether throttling `entity` removes it
    /// when the chain is at `head`.
    pub open spec fn throttle_marks(self, entity: Entity, head: u64) -> Seq<bool> {
        throttle_marks_of(self.config, self.ops, entity, head)
    }

    /// The operations that are valid only before `deadline`: the hash of
    /// each with the time until which it is valid, best first.
    pub open spec fn expired(self, deadline: Timestamp) -> Seq<(H256, Timestamp)> {
        picked(self.ops, expires_before(deadline), hash_and_deadline())
    }

    /// The hashes of the operations that declare `entity`, best first.
    pub open spec fn declaring(self, entity: Entity) -> Seq<H256> {
        picked(self.ops, declares(entity), hash_of())
    }

    /// The hashes of the operations that throttling `entity` removes when
    /// the chain is at `head`, best first.
    pub open spec fn throttled(self, entity: Entity, head: u64) -> Seq<H256> {
        marked_hashes(self.ops, self.throttle_marks(entity, head))
    }

    /// Whether an operation may come in beside the pooled ones, as far as
    /// the roles of its addresses go: its sender must not be the paymaster,
    /// aggregator or factory of a pooled operation, and neither its
    /// paymaster nor its factory the sender of one. The paymaster is looked
    /// at before the factory.
    pub open spec fn check_multiple_roles_violation(self, uo: UserOperation) -> Result<
        (),
        MempoolError,
    > {
        if self.count(uo.sender, EntityType::Paymaster) + self.count(
            uo.sender,
            EntityType::Aggregator,
        ) + self.count(uo.sender, EntityType::Factory) > 0 {
            Err(MempoolError::SenderAddressUsedAsAlternateEntity(uo.sender))
        } else if uo.spec_paymaster() matches Some(paymaster) && self.count(
            paymaster,
            EntityType::Account,
        ) > 0 {
            Err(
                MempoolError::MultipleRolesViolation(
                    Entity { kind: EntityType::Paymaster, address: uo.spec_paymaster()->0 },
                ),
            )
        } else if uo.spec_factory() matches Some(factory) && self.count(
            factory,
            EntityType::Account,
        ) > 0 {
            Err(
                MempoolError::MultipleRolesViolation(
                    Entity { kind: EntityType::Factory, address: uo.spec_factory()->0 },
                ),
            )
        } else {
            Ok(())
        }
    }

    /// Whether `address`, whose storage an operation touches, stands in the
    /// way of the operation: it sends a pooled operation, it is not the
    /// sender of this one, and it is the paymaster or the factory of this
    /// one.
    pub open spec fn storage_conflict(self, address: Address, uo: UserOperation) -> bool {
        self.count(address, EntityType::Account) > 0 && address != uo.sender && (
        uo.spec_paymaster() == Some(address) || uo.spec_factory() == Some(address))
    }

    /// The pool after the ledger took note of the first `count` balance
    /// updates, or of their opposites where `undo` is set.
    pub open spec fn credited(self, updates: Seq<crate::chain::BalanceUpdate>, undo: bool, count: nat)
        -> PoolView
        decreases count,
    {
        if count == 0 {
            self
        } else {
            let before = self.credited(updates, undo, (count - 1) as nat);
            let update = updates[count - 1];
            PoolView {
                paymaster: before.paymaster.credit(
                    update.address,
                    update.amount,
                    update.is_addition != undo,
                ),
                ..before
            }
        }
    }

    /// The pool after it was cleared: of its operations, pooled and mined,
    /// of its ledger, or of both.
    pub open spec fn clear(self, clear_mempool: bool, clear_paymaster: bool) -> PoolView {
        PoolView {
            ops: if clear_mempool {
                Seq::empty()
            } else {
                self.ops
            },
            mined: if clear_mempool {
                Seq::empty()
            } else {
                self.mined
            },
            paymaster: if clear_paymaster {
                PaymasterView::empty(self.paymaster.enabled)
            } else {
                self.paymaster
            },
            ..self
        }
    }
}

} // verus!
