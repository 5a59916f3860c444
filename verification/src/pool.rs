//! The pool of user operations of one entry point.

use crate::address_counts::AddressCounts;
use crate::chain::{BalanceUpdate, MinedOp};
use crate::entity::{Entity, EntityType};
use crate::error::{MempoolError, OtherError};
use crate::ordered::{
    entry_size, follows, hash_is, id_is, mined_hash_is, mined_size, share_operation,
    shared_operation, MinedEntry, MinedNote,
    OrderedPoolOperation, PoolEntry,
};
use crate::paymaster::{PaymasterBalance, PaymasterMetadata, PaymasterTracker, PaymasterView};
use crate::pool_lemmas::lemma_unmarked_are_kept;
use crate::pool_view::{
    declares, expires_before, hash_and_deadline, hash_of, lacks, marked_hashes, mined_since,
    throttle_budget, throttles, unmarked, uses, valid_at, PoolInnerConfig, PoolView,
};
use crate::primitives::{u256_max, Address, H256, U256};
use crate::search::{lemma_first_where_is, lemma_first_where_none, picked, retained};
use crate::size::SizeTracker;
use crate::sums::{lemma_sum_bound, lemma_sum_insert, lemma_sum_push, lemma_sum_remove, sum_of};
use crate::user_operation::{
    spec_op_hash, PoolOperation, Timestamp, UserOperation, UserOperationId,
};
use std::sync::Arc;
use vstd::prelude::*;

verus! {

/// The pool of user operations of one entry point.
#[derive(Debug)]
pub struct PoolInner {
    /// The settings.
    config: PoolInnerConfig,
    /// The pooled operations, best first.
    ops: Vec<PoolEntry>,
    /// The operations that blocks included, kept in case a block is undone.
    mined: Vec<MinedEntry>,
    /// How often each address is used by the pooled operations.
    count_by_address: AddressCounts,
    /// The number that the next operation comes in under.
    submission_id: u64,
    /// The ledger of paymaster balances.
    paymaster_balances: PaymasterTracker,
    /// The bytes that the pooled operations take.
    pool_size: SizeTracker,
    /// The bytes that the mined operations take.
    cache_size: SizeTracker,
}

impl View for PoolInner {
    type V = PoolView;

    closed spec fn view(&self) -> PoolView {
        PoolView {
            config: self.config,
            ops: self.ops@,
            mined: self.mined@,
            submission_id: self.submission_id,
            paymaster: self.paymaster_balances@,
        }
    }
}

impl PoolInner {
    /// The pool is well formed but for its size, and what it keeps besides
    /// the operations agrees with them: the two byte counts are the sums of
    /// the sizes, and the count of each address in each role is the number
    /// of pooled operations that use it so.
    pub closed spec fn inv_except_size(&self) -> bool {
        &&& self@.wf_except_size()
        &&& self.pool_size@ == self@.size()
        &&& self.cache_size@ == self@.cache_size()
        &&& self.count_by_address.wf()
        &&& forall|address: Address, kind: EntityType|
            #![trigger self.count_by_address.count(address, kind)]
            self.count_by_address.count(address, kind) == self@.count(address, kind)
    }

    /// The invariant of the pool: all of the above, and the pooled
    /// operations take no more bytes than the settings allow.
    pub closed spec fn inv(&self) -> bool {
        &&& self.inv_except_size()
        &&& self@.size() <= self@.config.max_size_of_pool_bytes
    }

    /// What the invariant says of the counts kept for one address.
    proof fn lemma_counts(&self, address: Address)
        requires
            self.inv_except_size(),
        ensures
            self.count_by_address.count(address, EntityType::Account) == self@.count(
                address,
                EntityType::Account,
            ),
            self.count_by_address.count(address, EntityType::Paymaster) == self@.count(
                address,
                EntityType::Paymaster,
            ),
            self.count_by_address.count(address, EntityType::Aggregator) == self@.count(
                address,
                EntityType::Aggregator,
            ),
            self.count_by_address.count(address, EntityType::Factory) == self@.count(
                address,
                EntityType::Factory,
            ),
    {
    }

    /// Whether the pool keeps a counter for `address`.
    pub closed spec fn keeps_count_of(&self, address: Address) -> bool {
        self.count_by_address.spec_get(address) is Some
    }

    /// The pool keeps a counter for exactly the addresses that pooled
    /// operations use: an address that no pooled operation uses in any role
    /// has none.
    pub proof fn lemma_counted_iff_used(&self, address: Address)
        requires
            self.inv(),
        ensures
            self.keeps_count_of(address) <==> self@.address_count(address) > 0,
    {
        self.lemma_counts(address);
        self.count_by_address.lemma_present_iff_counted(address);
    }

    /// What the invariant says of the pool as a mathematical value.
    pub proof fn lemma_inv(&self)
        requires
            self.inv(),
        ensures
            self@.wf(),
    {
    }

    /// A pool that holds nothing.
    pub fn new(config: PoolInnerConfig) -> (pool: PoolInner)
        ensures
            pool.inv(),
            pool@ == PoolView::empty(config),
            pool@.reservations_pooled(),
    {
        let pool = PoolInner {
            paymaster_balances: PaymasterTracker::new(config.paymaster_tracking_enabled),
            config,
            ops: Vec::new(),
            mined: Vec::new(),
            count_by_address: AddressCounts::new(),
            submission_id: 0,
            pool_size: SizeTracker::new(),
            cache_size: SizeTracker::new(),
        };
        proof {
            assert(pool@.ops =~= Seq::empty());
            assert(pool@.mined =~= Seq::empty());
            assert forall|address: Address, kind: EntityType|
                #![trigger pool.count_by_address.count(address, kind)]
                pool.count_by_address.count(address, kind) == pool@.count(address, kind) by {
                assert(pool.count_by_address.spec_get(address) is None);
            }
        }
        pool
    }

    /// A pool that holds nothing and hands out the submission ids from
    /// `submission_id` on.
    pub fn starting_at(config: PoolInnerConfig, submission_id: u64) -> (pool: PoolInner)
        ensures
            pool.inv(),
            pool@ == (PoolView { submission_id, ..PoolView::empty(config) }),
            pool@.reservations_pooled(),
    {
        let mut pool = PoolInner::new(config);
        pool.submission_id = submission_id;
        pool
    }

    fn find_hash(&self, hash: H256) -> (at: usize)
        ensures
            at == self@.hash_index(hash),
            at <= self@.ops.len(),
    {
        let mut at: usize = 0;
        while at < self.ops.len()
            invariant
                at <= self.ops@.len(),
                forall|j: int| 0 <= j < at ==> self.ops@[j].hash != hash,
            decreases self.ops@.len() - at,
        {
            if self.ops[at].hash == hash {
                proof {
                    lemma_first_where_is(self.ops@, hash_is(hash), at as int);
                }
                return at;
            }
            at += 1;
        }
        proof {
            lemma_first_where_none(self.ops@, hash_is(hash));
        }
        at
    }

    fn find_id(&self, id: UserOperationId) -> (at: usize)
        ensures
            at == self@.id_index(id),
            at <= self@.ops.len(),
    {
        let mut at: usize = 0;
        while at < self.ops.len()
            invariant
                at <= self.ops@.len(),
                forall|j: int| 0 <= j < at ==> self.ops@[j].id() != id,
            decreases self.ops@.len() - at,
        {
            if self.ops[at].op.po.uo.id() == id {
                proof {
                    lemma_first_where_is(self.ops@, id_is(id), at as int);
                }
                return at;
            }
            at += 1;
        }
        proof {
            lemma_first_where_none(self.ops@, id_is(id));
        }
        at
    }

    fn find_mined(&self, hash: H256) -> (at: usize)
        ensures
            at == self@.mined_index(hash),
            at <= self@.mined.len(),
    {
        let mut at: usize = 0;
        while at < self.mined.len()
            invariant
                at <= self.mined@.len(),
                forall|j: int| 0 <= j < at ==> self.mined@[j].hash != hash,
            decreases self.mined@.len() - at,
        {
            if self.mined[at].hash == hash {
                proof {
                    lemma_first_where_is(self.mined@, mined_hash_is(hash), at as int);
                }
                return at;
            }
            at += 1;
        }
        proof {
            lemma_first_where_none(self.mined@, mined_hash_is(hash));
        }
        at
    }

    fn find_place(&self, op: &OrderedPoolOperation) -> (at: usize)
        ensures
            at == self@.insert_index(*op),
            at <= self@.ops.len(),
    {
        let mut at: usize = 0;
        while at < self.ops.len()
            invariant
                at <= self.ops@.len(),
                forall|j: int| 0 <= j < at ==> !op.precedes(self.ops@[j].op),
            decreases self.ops@.len() - at,
        {
            if op.is_before(&self.ops[at].op) {
                proof {
                    lemma_first_where_is(self.ops@, follows(*op), at as int);
                }
                return at;
            }
            at += 1;
        }
        proof {
            lemma_first_where_none(self.ops@, follows(*op));
        }
        at
    }

    /// Takes the operation at `at` out of the pool.
    fn remove_at(&mut self, at: usize) -> (entry: PoolEntry)
        requires
            old(self).inv_except_size(),
            at < old(self)@.ops.len(),
        ensures
            final(self).inv_except_size(),
            final(self)@ == old(self)@.without(at as int),
            entry == old(self)@.ops[at as int],
            final(self)@.size() <= old(self)@.size(),
            final(self)@.admits(entry),
    {
        let ghost before = self@;
        proof {
            before.lemma_without_wf(at as int);
        }
        let entry = self.ops.remove(at);
        let id = entry.op.po.uo.id();
        self.paymaster_balances.remove_operation(&id);
        self.count_by_address.drop_use(Some(entry.op.po.uo.sender), EntityType::Account);
        self.count_by_address.drop_use(entry.op.po.uo.paymaster(), EntityType::Paymaster);
        self.count_by_address.drop_use(entry.op.po.aggregator, EntityType::Aggregator);
        self.count_by_address.drop_use(entry.op.po.uo.factory(), EntityType::Factory);
        self.pool_size.sub(entry.op.mem_size());
        proof {
            assert(self@ == before.without(at as int));
            assert forall|address: Address, kind: EntityType|
                #![trigger self.count_by_address.count(address, kind)]
                self.count_by_address.count(address, kind) == self@.count(address, kind) by {
                lemma_sum_remove(before.ops, at as int, uses(kind, address));
                assert(old(self).count_by_address.count(address, kind) == before.count(
                    address,
                    kind,
                ));
            }
        }
        entry
    }

    /// Puts an operation into the pool at its place.
    fn insert_entry(&mut self, entry: PoolEntry)
        requires
            old(self).inv_except_size(),
            old(self)@.admits(entry),
        ensures
            final(self).inv_except_size(),
            final(self)@ == old(self)@.inserted(entry),
    {
        let ghost before = self@;
        proof {
            before.lemma_inserted_wf(entry);
            before.lemma_bounds();
        }
        let at = self.find_place(&entry.op);
        let sender = entry.op.po.uo.sender;
        let paymaster = entry.op.po.uo.paymaster();
        let aggregator = entry.op.po.aggregator;
        let factory = entry.op.po.uo.factory();
        let size = entry.op.mem_size();
        self.ops.insert(at, entry);
        let count = self.ops.len();
        proof {
            assert(before.ops.len() < usize::MAX);
            assert(before.ops.len() * isize::MAX <= usize::MAX * isize::MAX) by (nonlinear_arith)
                requires
                    before.ops.len() <= usize::MAX,
            ;
            assert(usize::MAX * isize::MAX <= 0xffff_ffff_ffff_ffff * 0x7fff_ffff_ffff_ffff)
                by (nonlinear_arith)
                requires
                    usize::MAX <= 0xffff_ffff_ffff_ffff,
                    isize::MAX <= 0x7fff_ffff_ffff_ffff,
            ;
        }
        self.count_by_address.add_use(Some(sender), EntityType::Account);
        self.count_by_address.add_use(paymaster, EntityType::Paymaster);
        self.count_by_address.add_use(aggregator, EntityType::Aggregator);
        self.count_by_address.add_use(factory, EntityType::Factory);
        self.pool_size.add(size);
        proof {
            assert(self@ == before.inserted(entry));
            assert forall|address: Address, kind: EntityType|
                #![trigger self.count_by_address.count(address, kind)]
                self.count_by_address.count(address, kind) == self@.count(address, kind) by {
                lemma_sum_insert(before.ops, at as int, entry, uses(kind, address));
                assert(old(self).count_by_address.count(address, kind) == before.count(
                    address,
                    kind,
                ));
            }
        }
    }

    /// Keeps an operation that left the pool among the mined ones.
    fn cache_entry(&mut self, entry: PoolEntry, note: MinedNote)
        requires
            old(self).inv_except_size(),
            old(self)@.admits(entry),
        ensures
            final(self).inv_except_size(),
            final(self)@ == old(self)@.cached(entry, note),
    {
        let ghost before = self@;
        proof {
            before.lemma_cached_wf(entry, note);
            before.lemma_bounds();
        }
        let at = self.find_mined(entry.hash);
        if at < self.mined.len() {
            let replaced = self.mined.remove(at);
            proof {
                lemma_sum_remove(before.mined, at as int, mined_size());
            }
            self.cache_size.sub(replaced.op.mem_size());
        }
        let ghost others = self.mined@;
        let size = entry.op.mem_size();
        let kept = MinedEntry {
            block_number: note.block_number,
            debited: note.debited,
            hash: entry.hash,
            op: entry.op,
        };
        self.mined.push(kept);
        let count = self.mined.len();
        proof {
            lemma_sum_push(others, kept, mined_size());
            lemma_sizes_fit(others.len());
            lemma_sum_bound(others, mined_size(), isize::MAX as nat);
        }
        self.cache_size.add(size);
    }

    /// Takes the operation with the hash `hash` out of the pool; with a
    /// block number, the operation joins the mined ones.
    fn remove_operation_internal(&mut self, hash: H256, note: Option<MinedNote>) -> (removed: Option<
        Arc<PoolOperation>,
    >)
        requires
            old(self).inv_except_size(),
        ensures
            final(self).inv_except_size(),
            final(self)@ == old(self)@.remove(hash, note),
            removed == old(self)@.operation(hash),
            final(self)@.size() <= old(self)@.size(),
    {
        let at = self.find_hash(hash);
        if at >= self.ops.len() {
            return None;
        }
        let entry = self.remove_at(at);
        let po = share_operation(&entry.op.po);
        match note {
            Some(mined) => {
                proof {
                    self@.lemma_cached_wf(entry, mined);
                }
                self.cache_entry(entry, mined);
            },
            None => {},
        }
        Some(po)
    }

    /// Takes the worst operations out of the pool, one by one, until it is
    /// within its size; returns their hashes.
    fn enforce_size(&mut self) -> (removed: Vec<H256>)
        requires
            old(self).inv_except_size(),
        ensures
            final(self).inv(),
            final(self)@ == old(self)@.enforce_size(),
            removed@ == old(self)@.evicted(),
    {
        let mut removed: Vec<H256> = Vec::new();
        assert(removed@ + self@.evicted() =~= self@.evicted());
        while self.ops.len() > 0 && self.pool_size.exceeds(self.config.max_size_of_pool_bytes)
            invariant
                self.inv_except_size(),
                self@.enforce_size() == old(self)@.enforce_size(),
                removed@ + self@.evicted() == old(self)@.evicted(),
            decreases self.ops@.len(),
        {
            let ghost before = self@;
            let ghost taken = removed@;
            assert(before.oversized());
            let worst = self.remove_at(self.ops.len() - 1);
            removed.push(worst.hash);
            assert(removed@ + self@.evicted() =~= taken + before.evicted());
        }
        proof {
            assert(!self@.oversized());
            assert(removed@ + self@.evicted() =~= removed@);
            if self.ops@.len() == 0 {
                assert(self@.size() == 0);
            }
        }
        removed
    }

    /// The fees that a replacement of `op` must offer at least; `None`
    /// where no fee is high enough.
    fn get_min_replacement_fees(&self, op: &UserOperation) -> (fees: (Option<U256>, Option<U256>))
        ensures
            match fees.0 {
                Some(fee) => fee@ == self@.replacement_fee(op.max_priority_fee_per_gas),
                None => self@.replacement_fee(op.max_priority_fee_per_gas)
                    > u256_max(),
            },
            match fees.1 {
                Some(fee) => fee@ == self@.replacement_fee(op.max_fee_per_gas),
                None => self@.replacement_fee(op.max_fee_per_gas) > u256_max(),
            },
    {
        let replacement_priority_fee = op.max_priority_fee_per_gas.checked_increase_by_percent(
            self.config.min_replacement_fee_increase_percentage,
        );
        let replacement_fee = op.max_fee_per_gas.checked_increase_by_percent(
            self.config.min_replacement_fee_increase_percentage,
        );
        (replacement_priority_fee, replacement_fee)
    }

    /// What the pool says of an operation that asks to come in under
    /// `hash`: `Err(OperationAlreadyKnown)` where an operation stands under
    /// that hash; else, where an operation of the same sender and nonce is
    /// pooled, `Err(ReplacementUnderpriced(..))` with the fees of that
    /// operation unless both fees offered are at least those fees raised by
    /// the percentage of the settings, and `Ok(Some(..))` with its hash
    /// otherwise; else `Ok(None)`.
    pub fn check_replacement_by_hash(&self, op: &UserOperation, hash: H256) -> (result: Result<
        Option<H256>,
        MempoolError,
    >)
        ensures
            result == self@.check_replacement(*op, hash),
    {
        if self.find_hash(hash) < self.ops.len() {
            return Err(MempoolError::OperationAlreadyKnown);
        }
        let at = self.find_id(op.id());
        if at < self.ops.len() {
            let existing = &self.ops[at];
            let (replacement_priority_fee, replacement_fee) = self.get_min_replacement_fees(
                existing.op.uo(),
            );
            proof {
                op.max_priority_fee_per_gas.lemma_view_bounds();
                op.max_fee_per_gas.lemma_view_bounds();
            }
            let priority_is_enough = match replacement_priority_fee {
                Some(fee) => !op.max_priority_fee_per_gas.lt(&fee),
                None => false,
            };
            let fee_is_enough = match replacement_fee {
                Some(fee) => !op.max_fee_per_gas.lt(&fee),
                None => false,
            };
            if !priority_is_enough || !fee_is_enough {
                return Err(
                    MempoolError::ReplacementUnderpriced(
                        existing.op.po.uo.max_priority_fee_per_gas,
                        existing.op.po.uo.max_fee_per_gas,
                    ),
                );
            }
            Ok(Some(existing.hash))
        } else {
            Ok(None)
        }
    }

    /// What the pool says of an operation that asks to come in, under the
    /// hash that it has at the entry point and on the chain of the pool.
    pub fn check_replacement(&self, op: &UserOperation) -> (result: Result<
        Option<H256>,
        MempoolError,
    >)
        ensures
            result == self@.check_replacement(
                *op,
                spec_op_hash(
                    *op,
                    self@.config.entry_point,
                    self@.config.chain_id,
                ),
            ),
    {
        let hash = op.op_hash(self.config.entry_point, self.config.chain_id);
        self.check_replacement_by_hash(op, hash)
    }

    /// Hands out the next submission id.
    fn next_submission_id(&mut self) -> (id: u64)
        requires
            old(self).inv_except_size(),
            old(self)@.submission_id < u64::MAX,
        ensures
            final(self).inv_except_size(),
            id == old(self)@.submission_id,
            final(self)@ == (PoolView {
                submission_id: (old(self)@.submission_id + 1) as u64,
                ..old(self)@
            }),
    {
        let id = self.submission_id;
        self.submission_id = self.submission_id + 1;
        id
    }

    /// Asks the ledger to back `op`, where it comes with a paymaster and
    /// with what is known of one.
    fn fund(&mut self, op: &PoolOperation, meta: Option<PaymasterMetadata>) -> (backed: bool)
        requires
            old(self).inv_except_size(),
        ensures
            final(self).inv_except_size(),
            final(self)@ == old(self)@.funded(*op, meta),
            backed == old(self)@.can_fund(*op, meta),
    {
        match meta {
            Some(known) => {
                if op.uo.paymaster().is_some() {
                    proof {
                        self@.paymaster.lemma_reserve_wf(
                            op.uo.spec_id(),
                            op.uo.spec_max_gas_cost(),
                            known,
                        );
                    }
                    self.paymaster_balances.add_or_update_balance(op, &known).is_ok()
                } else {
                    true
                }
            },
            None => true,
        }
    }

    /// Lets `op` into the pool under `hash`, as [`PoolView::add`] says.
    #[verifier::rlimit(50)]
    fn add_operation_internal(
        &mut self,
        op: Arc<PoolOperation>,
        hash: H256,
        submission_id: Option<u64>,
        meta: Option<PaymasterMetadata>,
    ) -> (result: Result<H256, MempoolError>)
        requires
            old(self).inv(),
            submission_id matches Some(given) ==> given < old(self)@.submission_id && (forall|
                i: int,
            |
                0 <= i < old(self)@.ops.len() ==> (#[trigger] old(self)@.ops[i]).op.submission_id
                    != given) && (forall|j: int|
                0 <= j < old(self)@.mined.len() ==> (#[trigger] old(
                    self,
                )@.mined[j]).op.submission_id != given),
        ensures
            final(self).inv(),
            final(self)@ == old(self)@.add(op, hash, submission_id, meta),
            result == old(self)@.add_result(op, hash, submission_id, meta),
            old(self)@.reservations_pooled() ==> final(self)@.reservations_pooled(),
    {
        proof {
            if self@.reservations_pooled() {
                self@.lemma_add_keeps_reservations(op, hash, submission_id, meta);
            }
        }
        let ghost before = self@;
        let ghost uo = shared_operation(op).uo;
        if submission_id.is_none() && self.submission_id == u64::MAX {
            return Err(MempoolError::Other(OtherError::SubmissionIdsExhausted));
        }
        let replaced = match self.check_replacement_by_hash(&op.uo, hash) {
            Err(e) => {
                return Err(e);
            },
            Ok(replaced) => replaced,
        };
        proof {
            before.lemma_vacated(uo, hash);
        }
        match replaced {
            Some(known) => {
                self.remove_operation_internal(known, None);
            },
            None => {},
        }
        assert(self@ == before.vacated(uo, hash));
        if !self.fund(&op, meta) {
            return Err(MempoolError::PaymasterBalanceTooLow);
        }
        let ghost funded = self@;
        let id = match submission_id {
            Some(given) => given,
            None => self.next_submission_id(),
        };
        let entry = PoolEntry { hash, op: OrderedPoolOperation { po: op, submission_id: id } };
        proof {
            assert forall|i: int| 0 <= i < self@.ops.len() implies (#[trigger] self@.ops[i]).hash
                != entry.hash && self@.ops[i].id() != entry.id() && self@.ops[i].op.submission_id
                != entry.op.submission_id by {
                let item = before.vacated(uo, hash).ops[i];
                assert(before.ops.contains(item));
                let w = choose|w: int| 0 <= w < before.ops.len() && before.ops[w] == item;
                assert(before.ops[w].op.submission_id < before.submission_id);
            }
        }
        self.insert_entry(entry);
        assert(self@ == before.admitted(op, hash, submission_id, meta));
        let removed = self.enforce_size();
        if hash_in(&removed, hash) {
            Err(MempoolError::DiscardedOnInsert)
        } else {
            Ok(hash)
        }
    }

    /// Lets `op` into the pool under `hash`; returns the hash.
    ///
    /// Fails, and leaves the pool as it is, where every submission id has
    /// been handed out (`Other`), where an operation stands under `hash`
    /// already (`OperationAlreadyKnown`), or where an operation of the same
    /// sender and nonce is pooled and not outbid
    /// (`ReplacementUnderpriced`). Otherwise the operation that is outbid
    /// leaves the pool. Then, where `op` has a paymaster and `meta` is
    /// given, the ledger is asked to back `op`; if it cannot, the call
    /// fails (`PaymasterBalanceTooLow`). Otherwise `op` goes in at its
    /// place, and the worst operations leave until the pool is within its
    /// size. If `op` is one of them the call fails (`DiscardedOnInsert`).
    pub fn add_operation_by_hash(
        &mut self,
        op: PoolOperation,
        hash: H256,
        paymaster_meta: Option<PaymasterMetadata>,
    ) -> (result: Result<H256, MempoolError>)
        requires
            old(self).inv(),
        ensures
            final(self).inv(),
            final(self)@ == old(self)@.add(Arc::new(op), hash, None, paymaster_meta),
            result == old(self)@.add_result(Arc::new(op), hash, None, paymaster_meta),
            final(self)@.size() <= final(self)@.config.max_size_of_pool_bytes,
            old(self)@.reservations_pooled() ==> final(self)@.reservations_pooled(),
    {
        self.add_operation_internal(Arc::new(op), hash, None, paymaster_meta)
    }

    /// Lets `op` into the pool under the hash that it has at the entry
    /// point and on the chain of the pool; see
    /// [`PoolInner::add_operation_by_hash`].
    pub fn add_operation(&mut self, op: PoolOperation, paymaster_meta: Option<PaymasterMetadata>)
        -> (result: Result<H256, MempoolError>)
        requires
            old(self).inv(),
        ensures
            final(self).inv(),
            final(self)@ == old(self)@.add(
                Arc::new(op),
                spec_op_hash(
                    op.uo,
                    old(self)@.config.entry_point,
                    old(self)@.config.chain_id,
                ),
                None,
                paymaster_meta,
            ),
            result == old(self)@.add_result(
                Arc::new(op),
                spec_op_hash(
                    op.uo,
                    old(self)@.config.entry_point,
                    old(self)@.config.chain_id,
                ),
                None,
                paymaster_meta,
            ),
            final(self)@.size() <= final(self)@.config.max_size_of_pool_bytes,
            old(self)@.reservations_pooled() ==> final(self)@.reservations_pooled(),
    {
        let hash = op.uo.op_hash(self.config.entry_point, self.config.chain_id);
        self.add_operation_by_hash(op, hash, paymaster_meta)
    }

    /// The settings of the pool.
    pub fn config(&self) -> (config: PoolInnerConfig)
        ensures
            config == self@.config,
    {
        self.config
    }

    /// The number of pooled operations.
    pub fn len(&self) -> (count: usize)
        ensures
            count == self@.ops.len(),
    {
        self.ops.len()
    }

    /// The number of mined operations that are kept.
    pub fn mined_len(&self) -> (count: usize)
        ensures
            count == self@.mined.len(),
    {
        self.mined.len()
    }

    /// The bytes that the pooled operations take.
    pub fn pool_size(&self) -> (bytes: i128)
        requires
            self.inv(),
        ensures
            bytes == self@.size(),
            bytes <= self@.config.max_size_of_pool_bytes,
    {
        self.pool_size.get()
    }

    /// The bytes that the mined operations take.
    pub fn cache_size(&self) -> (bytes: i128)
        requires
            self.inv(),
        ensures
            bytes == self@.cache_size(),
    {
        self.cache_size.get()
    }

    /// The paymasters that the ledger has an account for.
    pub fn paymaster_addresses(&self) -> (addresses: Vec<Address>)
        ensures
            addresses@ == self@.paymaster.balances.map_values(
                |b: PaymasterBalance| b.address,
            ),
    {
        self.paymaster_balances.paymaster_addresses()
    }

    /// Sets the confirmed balance of each paymaster to the balance at the
    /// same place.
    pub fn set_confirmed_paymaster_balances(
        &mut self,
        addresses: &Vec<Address>,
        balances: &Vec<U256>,
    )
        requires
            old(self).inv(),
            addresses@.len() == balances@.len(),
        ensures
            final(self).inv(),
            final(self)@ == (PoolView {
                paymaster: old(self)@.paymaster.confirm_all(
                    addresses@,
                    balances@,
                    addresses@.len(),
                ),
                ..old(self)@
            }),
            old(self)@.reservations_pooled() ==> final(self)@.reservations_pooled(),
    {
        proof {
            self@.paymaster.lemma_confirm_all_wf(addresses@, balances@, addresses@.len());
        }
        self.paymaster_balances.set_confirmed_balances(addresses, balances);
        proof {
            if old(self)@.reservations_pooled() {
                assert forall|i: int|
                    0 <= i < self@.paymaster.fees.len() implies self@.holds_for_pooled(
                    #[trigger] self@.paymaster.fees[i],
                ) by {
                    assert(old(self)@.holds_for_pooled(old(self)@.paymaster.fees[i]));
                }
            }
        }
    }

    /// The pooled operations in the order in which a bundle takes them:
    /// by fee, highest first, and among equal fees by arrival, earliest
    /// first.
    pub fn best_operations(&self) -> (best: Vec<Arc<PoolOperation>>)
        ensures
            best@ == self@.best(),
    {
        let mut best: Vec<Arc<PoolOperation>> = Vec::new();
        let mut i: usize = 0;
        while i < self.ops.len()
            invariant
                i <= self.ops@.len(),
                best@.len() == i,
                forall|j: int| 0 <= j < i ==> best@[j] == self.ops@[j].op.po,
            decreases self.ops@.len() - i,
        {
            best.push(share_operation(&self.ops[i].op.po));
            i += 1;
        }
        assert(best@ =~= self@.best());
        best
    }

    /// Takes the marked operations out of the pool.
    fn remove_marked(&mut self, marks: &Vec<bool>)
        requires
            old(self).inv(),
            marks@.len() == old(self)@.ops.len(),
        ensures
            final(self).inv(),
            final(self)@ == old(self)@.purge(marks@, marks@.len() as int),
            final(self)@.ops == unmarked(old(self)@.ops, marks@),
            old(self)@.reservations_pooled() ==> final(self)@.reservations_pooled(),
    {
        proof {
            self@.lemma_purge(marks@, marks@.len() as int);
            if self@.reservations_pooled() {
                self@.lemma_purge_keeps_reservations(marks@, marks@.len() as int);
            }
            assert(self@.ops.subrange(0, marks@.len() as int) =~= self@.ops);
            assert(self@.ops.subrange(marks@.len() as int, self@.ops.len() as int)
                =~= Seq::<PoolEntry>::empty());
        }
        let mut i: usize = marks.len();
        while i > 0
            invariant
                self.inv_except_size(),
                i <= self.ops@.len(),
                i <= marks@.len(),
                self@.size() <= old(self)@.size(),
                self@.config == old(self)@.config,
                self@.purge(marks@, i as int) == old(self)@.purge(marks@, marks@.len() as int),
            decreases i,
        {
            i -= 1;
            if marks[i] {
                self.remove_at(i);
            }
        }
    }

    /// Takes the operations that are valid only before `expire_before` out
    /// of the pool; returns the hash of each with the time until which it
    /// was valid, best first.
    pub fn remove_expired(&mut self, expire_before: Timestamp) -> (expired: Vec<
        (H256, Timestamp),
    >)
        requires
            old(self).inv(),
        ensures
            final(self).inv(),
            expired@ == old(self)@.expired(expire_before),
            old(self)@.reservations_pooled() ==> final(self)@.reservations_pooled(),
            final(self)@.ops == retained(
                old(self)@.ops,
                valid_at(expire_before),
            ),
            final(self)@ == old(self)@.purge(
                old(self)@.expired_marks(expire_before),
                old(self)@.ops.len() as int,
            ),
    {
        let mut expired: Vec<(H256, Timestamp)> = Vec::new();
        let mut marks: Vec<bool> = Vec::new();
        let mut i: usize = 0;
        while i < self.ops.len()
            invariant
                i <= self.ops@.len(),
                marks@.len() == i,
                forall|j: int|
                    0 <= j < i ==> marks@[j] == expires_before(expire_before)(
                        self.ops@[j],
                    ),
                expired@ == picked(
                    self.ops@.subrange(0, i as int),
                    expires_before(expire_before),
                    hash_and_deadline(),
                ),
            decreases self.ops@.len() - i,
        {
            let valid_until = self.ops[i].op.po.valid_time_range.valid_until;
            let gone = valid_until.is_before(&expire_before);
            proof {
                assert(self.ops@.subrange(0, i + 1).drop_last() =~= self.ops@.subrange(
                    0,
                    i as int,
                ));
            }
            if gone {
                expired.push((self.ops[i].hash, valid_until));
            }
            marks.push(gone);
            i += 1;
        }
        proof {
            assert(self.ops@.subrange(0, i as int) =~= self.ops@);
            assert(marks@ =~= self@.expired_marks(expire_before));
            lemma_unmarked_are_kept(
                self@.ops,
                marks@,
                valid_at(expire_before),
            );
        }
        self.remove_marked(&marks);
        expired
    }

    /// How many times the pooled operations use `address`, over all roles.
    pub fn address_count(&self, address: &Address) -> (count: u128)
        requires
            self.inv(),
        ensures
            count == self@.address_count(*address),
    {
        self.count_by_address.total(address)
    }

    /// The pooled operation with the hash `hash`.
    pub fn get_operation_by_hash(&self, hash: H256) -> (op: Option<Arc<PoolOperation>>)
        ensures
            op == self@.operation(hash),
    {
        let at = self.find_hash(hash);
        if at < self.ops.len() {
            Some(share_operation(&self.ops[at].op.po))
        } else {
            None
        }
    }

    /// The pooled operation with the sender and nonce `id`.
    pub fn get_operation_by_id(&self, id: UserOperationId) -> (op: Option<Arc<PoolOperation>>)
        ensures
            op == match self@.by_id(id) {
                Some(entry) => Some(entry.op.po),
                None => None,
            },
    {
        let at = self.find_id(id);
        if at < self.ops.len() {
            Some(share_operation(&self.ops[at].op.po))
        } else {
            None
        }
    }

    /// Takes the operation with the hash `hash` out of the pool and returns
    /// it; `None`, and no change, where there is none.
    pub fn remove_operation_by_hash(&mut self, hash: H256) -> (removed: Option<
        Arc<PoolOperation>,
    >)
        requires
            old(self).inv(),
        ensures
            final(self).inv(),
            final(self)@ == old(self)@.remove(hash, None),
            removed == old(self)@.operation(hash),
            old(self)@.reservations_pooled() ==> final(self)@.reservations_pooled(),
    {
        proof {
            self@.lemma_remove_wf(hash, None);
            if self@.reservations_pooled() {
                self@.lemma_remove_keeps_reservations(hash, None);
            }
        }
        self.remove_operation_internal(hash, None)
    }

    /// Whether an operation may come in beside the pooled ones, as far as
    /// the roles of its addresses go.
    pub fn check_multiple_roles_violation(&self, uo: &UserOperation) -> (result: Result<
        (),
        MempoolError,
    >)
        requires
            self.inv(),
        ensures
            result == self@.check_multiple_roles_violation(*uo),
    {
        proof {
            self.lemma_counts(uo.sender);
            if let Some(paymaster) = uo.spec_paymaster() {
                self.lemma_counts(paymaster);
            }
            if let Some(factory) = uo.spec_factory() {
                self.lemma_counts(factory);
            }
        }
        match self.count_by_address.get(&uo.sender) {
            Some(counter) => {
                if counter.includes_non_sender() {
                    return Err(MempoolError::SenderAddressUsedAsAlternateEntity(uo.sender));
                }
            },
            None => {},
        }
        match uo.paymaster() {
            Some(paymaster) => {
                match self.count_by_address.get(&paymaster) {
                    Some(counter) => {
                        if counter.sender() > 0 {
                            return Err(
                                MempoolError::MultipleRolesViolation(Entity::paymaster(paymaster)),
                            );
                        }
                    },
                    None => {},
                }
            },
            None => {},
        }
        match uo.factory() {
            Some(factory) => {
                match self.count_by_address.get(&factory) {
                    Some(counter) => {
                        if counter.sender() > 0 {
                            return Err(
                                MempoolError::MultipleRolesViolation(Entity::factory(factory)),
                            );
                        }
                    },
                    None => {},
                }
            },
            None => {},
        }
        Ok(())
    }

    /// Whether an operation may come in, as far as the storage goes that it
    /// touches: fails where one of the addresses in `accessed_storage`
    /// sends a pooled operation, is not the sender of this one, and is its
    /// paymaster or its factory.
    pub fn check_associated_storage(&self, accessed_storage: &Vec<Address>, uo: &UserOperation)
        -> (result: Result<(), MempoolError>)
        requires
            self.inv(),
        ensures
            result == if exists|i: int|
                0 <= i < accessed_storage@.len() && self@.storage_conflict(
                    #[trigger] accessed_storage@[i],
                    *uo,
                ) {
                Err::<(), MempoolError>(MempoolError::AssociatedStorageIsAlternateSender)
            } else {
                Ok::<(), MempoolError>(())
            },
    {
        let paymaster = uo.paymaster();
        let factory = uo.factory();
        let mut i: usize = 0;
        while i < accessed_storage.len()
            invariant
                self.inv(),
                i <= accessed_storage@.len(),
                paymaster == uo.spec_paymaster(),
                factory == uo.spec_factory(),
                forall|j: int|
                    0 <= j < i ==> !self@.storage_conflict(#[trigger] accessed_storage@[j], *uo),
            decreases accessed_storage@.len() - i,
        {
            let storage_address = accessed_storage[i];
            proof {
                self.lemma_counts(storage_address);
            }
            let sends = match self.count_by_address.get(&storage_address) {
                Some(counter) => counter.sender() > 0,
                None => false,
            };
            if sends && storage_address != uo.sender {
                let is_paymaster = match paymaster {
                    Some(address) => address == storage_address,
                    None => false,
                };
                let is_factory = match factory {
                    Some(address) => address == storage_address,
                    None => false,
                };
                if is_paymaster || is_factory {
                    assert(self@.storage_conflict(accessed_storage@[i as int], *uo));
                    return Err(MempoolError::AssociatedStorageIsAlternateSender);
                }
            }
            i += 1;
        }
        Ok(())
    }

    /// Takes note that a block included `mined_op`: the pooled operation of
    /// the same sender and nonce, if there is one, is settled with its
    /// paymaster, leaves the pool and is kept among the mined operations
    /// under `block_number`. Returns that operation.
    pub fn mine_operation(&mut self, mined_op: &MinedOp, block_number: u64) -> (mined: Option<
        Arc<PoolOperation>,
    >)
        requires
            old(self).inv(),
        ensures
            final(self).inv(),
            final(self)@ == old(self)@.mine(*mined_op, block_number),
            mined == old(self)@.mined_operation(*mined_op),
            old(self)@.reservations_pooled() ==> final(self)@.reservations_pooled(),
    {
        proof {
            if self@.reservations_pooled() {
                self@.lemma_mine_keeps_reservations(*mined_op, block_number);
            }
        }
        let at = self.find_id(mined_op.id());
        if at >= self.ops.len() {
            return None;
        }
        let hash = self.ops[at].hash;
        proof {
            self@.lemma_found_at(at as int);
            self@.paymaster.lemma_settle_wf(mined_op.spec_id(), mined_op.actual_gas_cost);
        }
        let debited = self.paymaster_balances.reserved_with(&mined_op.id());
        self.paymaster_balances.update_paymaster_balance_from_mined_op(mined_op);
        self.remove_operation_internal(hash, Some(MinedNote { block_number, debited }))
    }

    /// Lets an operation that was mined ask to come into the pool again,
    /// under the submission id that it had, after the paymaster that paid
    /// for it, if one did, got back what the operation had cost.
    fn put_back_unmined_operation(&mut self, entry: MinedEntry, mined_op: &MinedOp) -> (result:
        Result<H256, MempoolError>)
        requires
            old(self).inv(),
            entry.op.submission_id < old(self)@.submission_id,
            forall|i: int|
                0 <= i < old(self)@.ops.len() ==> (#[trigger] old(self)@.ops[i]).op.submission_id
                    != entry.op.submission_id,
            forall|j: int|
                0 <= j < old(self)@.mined.len() ==> (#[trigger] old(
                    self,
                )@.mined[j]).op.submission_id != entry.op.submission_id,
        ensures
            final(self).inv(),
            final(self)@ == old(self)@.put_back(entry, mined_op.actual_gas_cost),
            result == old(self)@.put_back_result(entry, mined_op.actual_gas_cost),
    {
        match entry.debited {
            Some(paymaster) => {
                proof {
                    self@.paymaster.lemma_credit_wf(paymaster, mined_op.actual_gas_cost, true);
                }
                self.paymaster_balances.unmine_actual_cost(&paymaster, mined_op.actual_gas_cost);
            },
            None => {},
        }
        let paymaster_meta = match entry.op.po.uo.paymaster() {
            Some(paymaster) => self.paymaster_balances.paymaster_metadata(paymaster),
            None => None,
        };
        self.add_operation_internal(
            entry.op.po,
            entry.hash,
            Some(entry.op.submission_id),
            paymaster_meta,
        )
    }

    /// Takes note that the block of `mined_op` was undone: the operation
    /// kept under the hash of `mined_op`, if there is one, leaves the mined
    /// operations and asks to come into the pool again. Returns that
    /// operation, whether the pool took it or not.
    pub fn unmine_operation(&mut self, mined_op: &MinedOp) -> (unmined: Option<
        Arc<PoolOperation>,
    >)
        requires
            old(self).inv(),
        ensures
            final(self).inv(),
            final(self)@ == old(self)@.unmine(*mined_op),
            unmined == old(self)@.unmined_operation(*mined_op),
            old(self)@.reservations_pooled() ==> final(self)@.reservations_pooled(),
    {
        proof {
            if self@.reservations_pooled() {
                self@.lemma_unmine_keeps_reservations(*mined_op);
            }
        }
        let at = self.find_mined(mined_op.hash);
        if at >= self.mined.len() {
            return None;
        }
        proof {
            self@.lemma_uncached_wf(at as int);
        }
        let entry = self.mined.remove(at);
        self.cache_size.sub(entry.op.mem_size());
        let po = share_operation(&entry.op.po);
        let _ = self.put_back_unmined_operation(entry, mined_op);
        Some(po)
    }

    /// Takes out of the pool the operations that declare `entity` beyond
    /// the number that the settings allow, counted from the best down, and
    /// those that were simulated more blocks before `current_block_number`
    /// than the settings allow. Returns their hashes, best first.
    pub fn throttle_entity(&mut self, entity: Entity, current_block_number: u64) -> (removed: Vec<
        H256,
    >)
        requires
            old(self).inv(),
        ensures
            final(self).inv(),
            removed@ == old(self)@.throttled(entity, current_block_number),
            old(self)@.reservations_pooled() ==> final(self)@.reservations_pooled(),
            final(self)@.ops == unmarked(
                old(self)@.ops,
                old(self)@.throttle_marks(entity, current_block_number),
            ),
            final(self)@ == old(self)@.purge(
                old(self)@.throttle_marks(entity, current_block_number),
                old(self)@.ops.len() as int,
            ),
    {
        let mut uos_kept: u64 = self.config.throttled_entity_mempool_count;
        let mut to_remove: Vec<H256> = Vec::new();
        let mut marks: Vec<bool> = Vec::new();
        let mut i: usize = 0;
        while i < self.ops.len()
            invariant
                i <= self.ops@.len(),
                marks@.len() == i,
                uos_kept == throttle_budget(
                    self.config,
                    self.ops@.subrange(0, i as int),
                    entity,
                    current_block_number,
                ),
                forall|j: int|
                    0 <= j < i ==> marks@[j] == throttles(
                        self.config,
                        self.ops@,
                        entity,
                        current_block_number,
                        j,
                    ),
                to_remove@ == marked_hashes(
                    self.ops@.subrange(0, i as int),
                    marks@,
                ),
            decreases self.ops@.len() - i,
        {
            let declares = self.ops[i].op.po.contains_entity(&entity);
            let stale = (self.ops[i].op.po.sim_block_number as u128) + (
            self.config.throttled_entity_live_blocks as u128) < (current_block_number as u128);
            let gone = declares && (stale || uos_kept == 0);
            proof {
                assert(self.ops@.subrange(0, i + 1).drop_last() =~= self.ops@.subrange(
                    0,
                    i as int,
                ));
            }
            let ghost marks_before = marks@;
            if gone {
                to_remove.push(self.ops[i].hash);
            } else if declares {
                uos_kept = uos_kept - 1;
            }
            marks.push(gone);
            proof {
                lemma_marked_hashes_prefix(
                    self.ops@.subrange(0, i as int),
                    marks_before,
                    marks@,
                );
            }
            i += 1;
        }
        proof {
            assert(self.ops@.subrange(0, i as int) =~= self.ops@);
            assert(marks@ =~= self@.throttle_marks(entity, current_block_number));
        }
        self.remove_marked(&marks);
        to_remove
    }

    /// Takes the operations that declare `entity` out of the pool; returns
    /// their hashes, best first.
    pub fn remove_entity(&mut self, entity: Entity) -> (removed: Vec<H256>)
        requires
            old(self).inv(),
        ensures
            final(self).inv(),
            removed@ == old(self)@.declaring(entity),
            old(self)@.reservations_pooled() ==> final(self)@.reservations_pooled(),
            final(self)@.ops == retained(
                old(self)@.ops,
                lacks(entity),
            ),
            final(self)@ == old(self)@.purge(
                old(self)@.entity_marks(entity),
                old(self)@.ops.len() as int,
            ),
    {
        let mut to_remove: Vec<H256> = Vec::new();
        let mut marks: Vec<bool> = Vec::new();
        let mut i: usize = 0;
        while i < self.ops.len()
            invariant
                i <= self.ops@.len(),
                marks@.len() == i,
                forall|j: int|
                    0 <= j < i ==> marks@[j] == declares(entity)(self.ops@[j]),
                to_remove@ == picked(
                    self.ops@.subrange(0, i as int),
                    declares(entity),
                    hash_of(),
                ),
            decreases self.ops@.len() - i,
        {
            let gone = self.ops[i].op.po.contains_entity(&entity);
            proof {
                assert(self.ops@.subrange(0, i + 1).drop_last() =~= self.ops@.subrange(
                    0,
                    i as int,
                ));
            }
            if gone {
                to_remove.push(self.ops[i].hash);
            }
            marks.push(gone);
            i += 1;
        }
        proof {
            assert(self.ops@.subrange(0, i as int) =~= self.ops@);
            assert(marks@ =~= self@.entity_marks(entity));
            lemma_unmarked_are_kept(
                self@.ops,
                marks@,
                lacks(entity),
            );
        }
        self.remove_marked(&marks);
        to_remove
    }

    /// Forgets the operations that were mined before `block_number`.
    pub fn forget_mined_operations_before_block(&mut self, block_number: u64)
        requires
            old(self).inv(),
        ensures
            final(self).inv(),
            final(self)@ == old(self)@.forget(block_number),
            old(self)@.reservations_pooled() ==> final(self)@.reservations_pooled(),
    {
        let ghost before = self@;
        let ghost keep = mined_since(block_number);
        let ghost seen: int = 0;
        let mut i: usize = 0;
        proof {
            before.lemma_forget_wf(block_number);
            assert(before.mined.subrange(0, 0) =~= Seq::<MinedEntry>::empty());
            assert(before.mined.subrange(0, before.mined.len() as int) =~= before.mined);
        }
        while i < self.mined.len()
            invariant
                0 <= seen <= before.mined.len(),
                i == retained(before.mined.subrange(0, seen), keep).len(),
                self.mined@ == retained(before.mined.subrange(0, seen), keep)
                    + before.mined.subrange(seen, before.mined.len() as int),
                self.cache_size@ == sum_of(self.mined@, mined_size()),
                self@ == (PoolView { mined: self.mined@, ..before }),
                self.pool_size == old(self).pool_size,
                self.count_by_address == old(self).count_by_address,
                keep == mined_since(block_number),
            decreases before.mined.len() - seen,
        {
            proof {
                assert(before.mined.subrange(0, seen + 1).drop_last() =~= before.mined.subrange(
                    0,
                    seen,
                ));
                assert(self.mined@[i as int] == before.mined[seen]);
            }
            if self.mined[i].block_number < block_number {
                proof {
                    lemma_sum_remove(self.mined@, i as int, mined_size());
                }
                let gone = self.mined.remove(i);
                self.cache_size.sub(gone.op.mem_size());
                proof {
                    assert(self.mined@ =~= retained(
                        before.mined.subrange(0, seen + 1),
                        keep,
                    ) + before.mined.subrange(seen + 1, before.mined.len() as int));
                }
            } else {
                i += 1;
                proof {
                    assert(self.mined@ =~= retained(
                        before.mined.subrange(0, seen + 1),
                        keep,
                    ) + before.mined.subrange(seen + 1, before.mined.len() as int));
                }
            }
            proof {
                seen = seen + 1;
            }
        }
        proof {
            assert(seen == before.mined.len());
            assert(before.mined.subrange(0, seen) =~= before.mined);
            assert(self.mined@ =~= retained(before.mined, keep));
            if before.reservations_pooled() {
                assert forall|i: int|
                    0 <= i < self@.paymaster.fees.len() implies self@.holds_for_pooled(
                    #[trigger] self@.paymaster.fees[i],
                ) by {
                    assert(before.holds_for_pooled(before.paymaster.fees[i]));
                }
            }
        }
    }

    /// What the ledger tells of `paymaster`.
    pub fn paymaster_metadata(&self, paymaster: Address) -> (meta: Option<PaymasterMetadata>)
        ensures
            meta == self@.paymaster.metadata(paymaster),
    {
        self.paymaster_balances.paymaster_metadata(paymaster)
    }

    /// Whether the ledger is switched on and has an account for
    /// `paymaster`.
    pub fn paymaster_exists(&self, paymaster: Address) -> (r: bool)
        ensures
            r == (self@.paymaster.enabled && self@.paymaster.knows(paymaster)),
    {
        self.paymaster_balances.paymaster_exists(paymaster)
    }

    /// Lets the ledger take note of deposits and withdrawals, and of the
    /// opposites of those that were undone with their blocks.
    pub fn update_paymaster_balances_after_update(
        &mut self,
        entity_balance_updates: &Vec<BalanceUpdate>,
        unmined_entity_balance_updates: &Vec<BalanceUpdate>,
    )
        requires
            old(self).inv(),
        ensures
            final(self).inv(),
            final(self)@ == old(self)@.credited(
                entity_balance_updates@,
                false,
                entity_balance_updates@.len(),
            ).credited(
                unmined_entity_balance_updates@,
                true,
                unmined_entity_balance_updates@.len(),
            ),
            old(self)@.reservations_pooled() ==> final(self)@.reservations_pooled(),
    {
        proof {
            self@.lemma_credited(entity_balance_updates@, false, entity_balance_updates@.len());
            self@.credited(
                entity_balance_updates@,
                false,
                entity_balance_updates@.len(),
            ).lemma_credited(
                unmined_entity_balance_updates@,
                true,
                unmined_entity_balance_updates@.len(),
            );
        }
        let mut i: usize = 0;
        while i < entity_balance_updates.len()
            invariant
                self.inv(),
                i <= entity_balance_updates@.len(),
                self@ == old(self)@.credited(entity_balance_updates@, false, i as nat),
            decreases entity_balance_updates@.len() - i,
        {
            let update = entity_balance_updates[i];
            proof {
                self@.paymaster.lemma_credit_wf(update.address, update.amount, update.is_addition);
            }
            self.paymaster_balances.update_paymaster_balance_from_event(
                update.address,
                update.amount,
                update.is_addition,
            );
            i += 1;
        }
        let ghost noted = self@;
        let mut j: usize = 0;
        while j < unmined_entity_balance_updates.len()
            invariant
                self.inv(),
                j <= unmined_entity_balance_updates@.len(),
                self@ == noted.credited(unmined_entity_balance_updates@, true, j as nat),
            decreases unmined_entity_balance_updates@.len() - j,
        {
            let update = unmined_entity_balance_updates[j];
            proof {
                self@.paymaster.lemma_credit_wf(
                    update.address,
                    update.amount,
                    !update.is_addition,
                );
            }
            self.paymaster_balances.update_paymaster_balance_from_event(
                update.address,
                update.amount,
                !update.is_addition,
            );
            j += 1;
        }
    }

    /// Clears the pool of its operations, pooled and mined
    /// (`clear_mempool`), of its ledger (`clear_paymaster`), or of both.
    pub fn clear(&mut self, clear_mempool: bool, clear_paymaster: bool)
        requires
            old(self).inv(),
        ensures
            final(self).inv(),
            final(self)@ == old(self)@.clear(clear_mempool, clear_paymaster),
            old(self)@.reservations_pooled() && (clear_paymaster || !clear_mempool)
                ==> final(self)@.reservations_pooled(),
    {
        if clear_mempool {
            self.ops.clear();
            self.mined.clear();
            self.count_by_address.clear();
            self.pool_size = SizeTracker::new();
            self.cache_size = SizeTracker::new();
            proof {
                assert(self@.ops =~= Seq::empty());
                assert(self@.mined =~= Seq::empty());
                assert forall|address: Address, kind: EntityType|
                    #![trigger self.count_by_address.count(address, kind)]
                    self.count_by_address.count(address, kind) == self@.count(address, kind) by {
                    assert(self.count_by_address.spec_get(address) is None);
                }
            }
        }
        if clear_paymaster {
            self.paymaster_balances.clear();
        }
    }

    /// Switches the making of reservations with paymasters on or off.
    pub fn set_tracking(&mut self, paymaster: bool)
        requires
            old(self).inv(),
        ensures
            final(self).inv(),
            final(self)@ == (PoolView {
                paymaster: PaymasterView {
                    enabled: paymaster,
                    ..old(self)@.paymaster
                },
                ..old(self)@
            }),
            old(self)@.reservations_pooled() ==> final(self)@.reservations_pooled(),
    {
        self.paymaster_balances.set_paymaster_tracker(paymaster);
        proof {
            if old(self)@.reservations_pooled() {
                assert forall|i: int|
                    0 <= i < self@.paymaster.fees.len() implies self@.holds_for_pooled(
                    #[trigger] self@.paymaster.fees[i],
                ) by {
                    assert(old(self)@.holds_for_pooled(old(self)@.paymaster.fees[i]));
                }
            }
        }
    }
}

/// One more mark at the end changes nothing for the operations before it.
proof fn lemma_marked_hashes_prefix(ops: Seq<PoolEntry>, marks: Seq<bool>, longer: Seq<bool>)
    requires
        marks.len() == ops.len(),
        longer.len() > marks.len(),
        forall|i: int| 0 <= i < marks.len() ==> marks[i] == longer[i],
    ensures
        marked_hashes(ops, marks) == marked_hashes(ops, longer),
    decreases ops.len(),
{
    if ops.len() > 0 {
        lemma_marked_hashes_prefix(ops.drop_last(), marks.drop_last(), longer);
        lemma_marked_hashes_prefix(ops.drop_last(), marks.drop_last(), marks);
    }
}

/// Whether `hash` is one of `hashes`.
fn hash_in(hashes: &Vec<H256>, hash: H256) -> (found: bool)
    ensures
        found == hashes@.contains(hash),
{
    let mut i: usize = 0;
    while i < hashes.len()
        invariant
            i <= hashes@.len(),
            forall|j: int| 0 <= j < i ==> hashes@[j] != hash,
        decreases hashes@.len() - i,
    {
        if hashes[i] == hash {
            return true;
        }
        i += 1;
    }
    false
}

/// As many sizes as a vector holds, each at most `isize::MAX`, add up to a
/// number that a byte counter can hold with room for one more.
proof fn lemma_sizes_fit(count: nat)
    requires
        count < usize::MAX,
    ensures
        count * isize::MAX + isize::MAX <= i128::MAX,
{
    assert(count * isize::MAX <= 0xffff_ffff_ffff_ffff * 0x7fff_ffff_ffff_ffff)
        by (nonlinear_arith)
        requires
            count <= 0xffff_ffff_ffff_ffff,
            0 <= isize::MAX <= 0x7fff_ffff_ffff_ffff,
    ;
}

} // verus!
