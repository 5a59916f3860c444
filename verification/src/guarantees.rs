//! What holds of the pool whatever is done with it.

use crate::chain::MinedOp;
use crate::error::MempoolError;
use crate::ordered::{
    follows, hash_is, id_is, mined_hash_is, shared_operation, MinedEntry, MinedNote,
    OrderedPoolOperation, PoolEntry,
};
use crate::paymaster::{cost_for, PaymasterMetadata};
use crate::sums::{lemma_sum_push, sum_of};
use crate::entity::Entity;
use crate::pool_view::{
    declares, is_stale, throttle_budget, throttle_marks_of, throttles, unmarked,
    PoolInnerConfig, PoolView,
};
use crate::primitives::H256;
use crate::search::{first_where, lemma_first_where, lemma_first_where_is, lemma_first_where_none};
use crate::user_operation::{PoolOperation, UserOperationId};
use std::sync::Arc;
use vstd::prelude::*;

verus! {

/// The three ways to look at a well-formed pool agree: every operation in
/// the order of a bundle is the one found under its hash and the one found
/// under its sender and nonce, and whatever is found under a hash or under
/// a sender and nonce is an operation in that order, with that hash or that
/// sender and nonce.
pub proof fn lemma_indexes_agree(pool: PoolView)
    requires
        pool.wf(),
    ensures
        forall|i: int|
            0 <= i < pool.ops.len() ==> pool.by_hash((#[trigger] pool.ops[i]).hash) == Some(
                pool.ops[i],
            ) && pool.by_id(pool.ops[i].id()) == Some(pool.ops[i]),
        forall|hash: H256|
            (#[trigger] pool.by_hash(hash)) matches Some(entry) ==> entry.hash == hash
                && pool.ops.contains(entry) && pool.by_id(entry.id()) == Some(entry),
        forall|id: UserOperationId|
            (#[trigger] pool.by_id(id)) matches Some(entry) ==> entry.id() == id
                && pool.ops.contains(entry) && pool.by_hash(entry.hash) == Some(entry),
{
    assert forall|i: int| 0 <= i < pool.ops.len() implies pool.by_hash(
        (#[trigger] pool.ops[i]).hash,
    ) == Some(pool.ops[i]) && pool.by_id(pool.ops[i].id()) == Some(pool.ops[i]) by {
        pool.lemma_found_at(i);
    }
    assert forall|hash: H256| (#[trigger] pool.by_hash(hash)) matches Some(entry) ==> entry.hash
        == hash && pool.ops.contains(entry) && pool.by_id(entry.id()) == Some(entry) by {
        lemma_first_where(pool.ops, hash_is(hash));
        if pool.by_hash(hash) is Some {
            pool.lemma_found_at(pool.hash_index(hash));
        }
    }
    assert forall|id: UserOperationId| (#[trigger] pool.by_id(id)) matches Some(entry) ==> entry.id()
        == id && pool.ops.contains(entry) && pool.by_hash(entry.hash) == Some(entry) by {
        lemma_first_where(pool.ops, id_is(id));
        if pool.by_id(id) is Some {
            pool.lemma_found_at(pool.id_index(id));
        }
    }
}

/// The order of a bundle. In a well-formed pool an operation stands before
/// another exactly when it offers the higher fee, or the same fee and came
/// in under the lower submission id.
pub proof fn lemma_best_is_ordered(pool: PoolView, first: int, second: int)
    requires
        pool.wf(),
        0 <= first < pool.ops.len(),
        0 <= second < pool.ops.len(),
        first != second,
    ensures
        first < second <==> pool.ops[first].op.precedes(pool.ops[second].op),
        pool.best()[first] == pool.ops[first].op.po,
{
    if second < first {
        assert(pool.ops[second].op.precedes(pool.ops[first].op));
    }
}

/// What throttling leaves of an entity. Of the operations that declare a
/// throttled entity none stays that was simulated too long ago, and no more
/// stay than the settings allow; an operation that does not declare the
/// entity stays.
pub proof fn lemma_throttle_bounds(pool: PoolView, entity: Entity, head: u64)
    ensures
        sum_of(unmarked(pool.ops, pool.throttle_marks(entity, head)), declaring(entity))
            <= pool.config.throttled_entity_mempool_count,
        forall|i: int|
            0 <= i < unmarked(pool.ops, pool.throttle_marks(entity, head)).len() && declares(
                entity,
            )(#[trigger] unmarked(pool.ops, pool.throttle_marks(entity, head))[i]) ==> !is_stale(
                pool.config,
                unmarked(pool.ops, pool.throttle_marks(entity, head))[i],
                head,
            ),
        forall|i: int|
            0 <= i < pool.ops.len() && !declares(entity)(#[trigger] pool.ops[i])
                ==> !pool.throttle_marks(entity, head)[i],
{
    lemma_throttled_prefix(pool.config, pool.ops, entity, head, pool.ops.len() as int);
    assert(pool.ops.subrange(0, pool.ops.len() as int) =~= pool.ops);
}

/// What one use of a throttled entity counts among the operations that
/// stay: one for an operation that declares the entity.
pub open spec fn declaring(entity: Entity) -> spec_fn(PoolEntry) -> nat {
    |entry: PoolEntry|
        if declares(entity)(entry) {
            1nat
        } else {
            0nat
        }
}

/// The first `upto` operations, throttled: those that stay and declare the
/// entity are as many as were taken from the number allowed, and none of
/// them was simulated too long ago.
proof fn lemma_throttled_prefix(
    config: PoolInnerConfig,
    ops: Seq<PoolEntry>,
    entity: Entity,
    head: u64,
    upto: int,
)
    requires
        0 <= upto <= ops.len(),
    ensures
        ({
            let kept = unmarked(
                ops.subrange(0, upto),
                throttle_marks_of(config, ops, entity, head),
            );
            &&& sum_of(kept, declaring(entity)) + throttle_budget(
                config,
                ops.subrange(0, upto),
                entity,
                head,
            ) == config.throttled_entity_mempool_count
            &&& forall|i: int|
                0 <= i < kept.len() && declares(entity)(#[trigger] kept[i]) ==> !is_stale(
                    config,
                    kept[i],
                    head,
                )
        }),
    decreases upto,
{
    let marks = throttle_marks_of(config, ops, entity, head);
    let prefix = ops.subrange(0, upto);
    if upto > 0 {
        let shorter = ops.subrange(0, upto - 1);
        assert(prefix.drop_last() =~= shorter);
        assert(prefix.last() == ops[upto - 1]);
        lemma_throttled_prefix(config, ops, entity, head, upto - 1);
        let kept = unmarked(prefix, marks);
        let before = unmarked(shorter, marks);
        assert(marks[upto - 1] == throttles(config, ops, entity, head, upto - 1));
        if !marks[upto - 1] {
            assert(kept == before.push(ops[upto - 1]));
            lemma_sum_push(before, ops[upto - 1], declaring(entity));
            assert forall|i: int|
                0 <= i < kept.len() && declares(entity)(#[trigger] kept[i]) implies !is_stale(
                config,
                kept[i],
                head,
            ) by {
                if i < before.len() {
                    assert(kept[i] == before[i]);
                }
            }
        }
    } else {
        assert(prefix =~= Seq::<PoolEntry>::empty());
    }
}

/// The pending debits. In a well-formed pool whose reservations are all
/// held for pooled operations, the pending debit of each paymaster is the
/// sum of its reservations, no operation has two reservations, and each
/// reservation is of what a pooled operation of its sender and nonce may
/// cost.
pub proof fn lemma_pending_debits(pool: PoolView, account: int)
    requires
        pool.wf(),
        pool.reservations_pooled(),
        0 <= account < pool.paymaster.balances.len(),
    ensures
        pool.paymaster.balances[account].pending@ == sum_of(
            pool.paymaster.fees,
            cost_for(pool.paymaster.balances[account].address),
        ),
        forall|i: int, j: int|
            0 <= i < j < pool.paymaster.fees.len() ==> pool.paymaster.fees[i].id
                != pool.paymaster.fees[j].id,
        forall|i: int|
            0 <= i < pool.paymaster.fees.len() ==> (pool.by_id(
                (#[trigger] pool.paymaster.fees[i]).id,
            ) matches Some(entry) && entry.op.po.uo.spec_max_gas_cost()
                == pool.paymaster.fees[i].cost),
{
    assert forall|i: int| 0 <= i < pool.paymaster.fees.len() implies (pool.by_id(
        (#[trigger] pool.paymaster.fees[i]).id,
    ) matches Some(entry) && entry.op.po.uo.spec_max_gas_cost()
        == pool.paymaster.fees[i].cost) by {
        assert(pool.holds_for_pooled(pool.paymaster.fees[i]));
    }
}

/// An operation that left a well-formed pool goes back in where it stood.
pub proof fn lemma_back_in_place(pool: PoolView, at: int)
    requires
        pool.wf_except_size(),
        0 <= at < pool.ops.len(),
    ensures
        pool.without(at).insert_index(pool.ops[at].op) == at,
        pool.without(at).ops.insert(at, pool.ops[at]) == pool.ops,
{
    let rest = pool.without(at).ops;
    let op = pool.ops[at].op;
    assert forall|j: int| 0 <= j < at implies !follows(op)(#[trigger] rest[j]) by {
        assert(rest[j] == pool.ops[j]);
        assert(pool.ops[j].op.precedes(op));
    }
    if at < rest.len() {
        assert(rest[at] == pool.ops[at + 1]);
        assert(op.precedes(pool.ops[at + 1].op));
    }
    lemma_first_where_is(rest, follows(op), at);
    assert(rest.insert(at, pool.ops[at]) =~= pool.ops);
}

/// The replacement law. Where an operation came into a well-formed pool,
/// an operation of the same sender and nonce that offers both fees raised
/// by the percentage of the settings comes in after it and takes its
/// place: the pool holds the second under its hash and as the only
/// operation of that sender and nonce, and the first no longer.
///
/// The law is stated for a second operation whose hash the pool does not
/// know, which the ledger backs, for which a submission id is left, and
/// with which the pool is within its size.
#[verifier::rlimit(50)]
pub proof fn lemma_replacement(
    pool: PoolView,
    first: Arc<PoolOperation>,
    first_hash: H256,
    first_meta: Option<PaymasterMetadata>,
    second: Arc<PoolOperation>,
    second_hash: H256,
    second_meta: Option<PaymasterMetadata>,
)
    requires
        pool.wf(),
        pool.add_result(first, first_hash, None, first_meta) is Ok,
        second.uo.spec_id() == first.uo.spec_id(),
        second.uo.max_fee_per_gas@ >= pool.replacement_fee(first.uo.max_fee_per_gas),
        second.uo.max_priority_fee_per_gas@ >= pool.replacement_fee(
            first.uo.max_priority_fee_per_gas,
        ),
        pool.add(first, first_hash, None, first_meta).by_hash(second_hash) is None,
        pool.add(first, first_hash, None, first_meta).submission_id < u64::MAX,
        pool.add(first, first_hash, None, first_meta).vacated(second.uo, second_hash).can_fund(
            *second,
            second_meta,
        ),
        !pool.add(first, first_hash, None, first_meta).admitted(
            second,
            second_hash,
            None,
            second_meta,
        ).oversized(),
    ensures
        pool.add(first, first_hash, None, first_meta).add_result(
            second,
            second_hash,
            None,
            second_meta,
        ) == Ok::<H256, MempoolError>(second_hash),
        ({
            let after = pool.add(first, first_hash, None, first_meta).add(
                second,
                second_hash,
                None,
                second_meta,
            );
            &&& after.wf()
            &&& after.by_hash(first_hash) is None
            &&& after.by_hash(second_hash) matches Some(entry) && entry.op.po == second
            &&& after.by_id(second.uo.spec_id()) matches Some(entry) && entry.op.po == second
                && entry.hash == second_hash
            &&& forall|i: int|
                0 <= i < after.ops.len() && (#[trigger] after.ops[i]).id() == second.uo.spec_id()
                    ==> after.ops[i].op.po == second
        }),
{
    let first_op = shared_operation(first);
    let second_op = shared_operation(second);
    let id = first_op.uo.spec_id();
    lemma_first_in(pool, first, first_hash, first_meta);
    let held = pool.add(first, first_hash, None, first_meta);
    pool.lemma_add_wf(first, first_hash, None, first_meta);
    lemma_indexes_agree(held);
    lemma_first_where(held.ops, hash_is(second_hash));
    lemma_first_where(held.ops, hash_is(first_hash));
    lemma_first_where(held.ops, id_is(id));
    let at = held.id_index(id);
    assert(held.check_replacement(second_op.uo, second_hash) == Ok::<
        Option<H256>,
        MempoolError,
    >(Some(first_hash)));
    held.lemma_funded_admits(second, second_hash, None, second_meta);
    held.lemma_vacated(second_op.uo, second_hash);
    let vacated = held.vacated(second_op.uo, second_hash);
    let admitted = held.admitted(second, second_hash, None, second_meta);
    admitted.lemma_enforce_size();
    let after = held.add(second, second_hash, None, second_meta);
    assert(after == admitted);
    let funded = vacated.funded(second_op, second_meta);
    let numbered = PoolView { submission_id: (funded.submission_id + 1) as u64, ..funded };
    let entry = PoolEntry {
        hash: second_hash,
        op: OrderedPoolOperation { po: second, submission_id: funded.submission_id },
    };
    assert(admitted == numbered.inserted(entry));
    let place = numbered.insert_index(entry.op);
    lemma_first_where(numbered.ops, follows(entry.op));
    assert forall|i: int| 0 <= i < after.ops.len() implies #[trigger] after.ops[i] == (if i
        < place {
        vacated.ops[i]
    } else if i == place {
        entry
    } else {
        vacated.ops[i - 1]
    }) by {}
    assert forall|i: int| 0 <= i < after.ops.len() && i != place implies (
    #[trigger] after.ops[i]).hash != second_hash && after.ops[i].id() != id && after.ops[i].hash
        != first_hash by {
        let w = if i < place {
            i
        } else {
            i - 1
        };
        assert(after.ops[i] == vacated.ops[w]);
        assert(held.ops.contains(vacated.ops[w]));
        let v = choose|v: int| 0 <= v < held.ops.len() && held.ops[v] == vacated.ops[w];
        if held.ops[v].hash == first_hash {
            assert(held.hash_index(first_hash) == v) by {
                held.lemma_found_at(v);
            }
            held.lemma_found_at(v);
        }
    }
    lemma_first_where_is(after.ops, hash_is(second_hash), place);
    lemma_first_where_is(after.ops, id_is(id), place);
    lemma_first_where_none(after.ops, hash_is(first_hash));
}

/// An operation that a well-formed pool lets in stands in it afterwards,
/// under its hash and under its sender and nonce.
pub proof fn lemma_first_in(
    pool: PoolView,
    po: Arc<PoolOperation>,
    hash: H256,
    meta: Option<PaymasterMetadata>,
)
    requires
        pool.wf(),
        pool.add_result(po, hash, None, meta) is Ok,
    ensures
        pool.add(po, hash, None, meta).by_hash(hash) matches Some(entry) && entry.op.po == po
            && entry.id() == po.uo.spec_id(),
        pool.add(po, hash, None, meta).by_id(po.uo.spec_id()) matches Some(entry) && entry.op.po
            == po && entry.hash == hash,
{
    let op = shared_operation(po);
    pool.lemma_funded_admits(po, hash, None, meta);
    let admitted = pool.admitted(po, hash, None, meta);
    admitted.lemma_enforce_size();
    let after = pool.add(po, hash, None, meta);
    pool.lemma_add_wf(po, hash, None, meta);
    let funded = pool.vacated(op.uo, hash).funded(op, meta);
    let numbered = PoolView { submission_id: (funded.submission_id + 1) as u64, ..funded };
    let entry = PoolEntry {
        hash,
        op: OrderedPoolOperation { po, submission_id: funded.submission_id },
    };
    assert(admitted == numbered.inserted(entry));
    let place = numbered.insert_index(entry.op);
    lemma_first_where(numbered.ops, follows(entry.op));
    assert(admitted.ops[place] == entry);
    assert(!admitted.evicted().contains(hash));
    assert(place < admitted.kept());
    assert(after.ops[place] == entry);
    after.lemma_found_at(place);
}

/// The first half of the eviction law. While a pool is over its size, the
/// operation that leaves first is the last in the order of a bundle.
pub proof fn lemma_worst_leaves_first(pool: PoolView)
    requires
        pool.oversized(),
    ensures
        pool.evicted().len() > 0,
        pool.evicted()[0] == pool.ops.last().hash,
{
}

/// The second half of the eviction law. Where an operation that outbids no
/// pooled operation asks to come into a well-formed pool that cannot hold
/// it besides what it holds, the pool discards it at once and holds the
/// operations that it held.
///
/// The law is stated for an operation that replaces nothing, whose hash
/// the pool does not know, which the ledger backs, and for which a
/// submission id is left.
pub proof fn lemma_worst_is_discarded(
    pool: PoolView,
    po: Arc<PoolOperation>,
    hash: H256,
    meta: Option<PaymasterMetadata>,
)
    requires
        pool.wf(),
        pool.submission_id < u64::MAX,
        pool.check_replacement(po.uo, hash) == Ok::<Option<H256>, MempoolError>(
            None,
        ),
        pool.can_fund(*po, meta),
        forall|i: int|
            0 <= i < pool.ops.len() ==> (#[trigger] pool.ops[i]).op.po.uo.max_fee_per_gas@
                >= po.uo.max_fee_per_gas@,
        pool.size() + (OrderedPoolOperation { po, submission_id: 0 }).spec_mem_size()
            > pool.config.max_size_of_pool_bytes,
    ensures
        pool.add_result(po, hash, None, meta) == Err::<H256, MempoolError>(
            MempoolError::DiscardedOnInsert,
        ),
        pool.add(po, hash, None, meta).ops == pool.ops,
        pool.add(po, hash, None, meta).mined == pool.mined,
{
    let op = shared_operation(po);
    pool.lemma_funded_admits(po, hash, None, meta);
    let funded = pool.funded(op, meta);
    let numbered = PoolView { submission_id: (funded.submission_id + 1) as u64, ..funded };
    let entry = PoolEntry {
        hash,
        op: OrderedPoolOperation { po, submission_id: funded.submission_id },
    };
    let admitted = pool.admitted(po, hash, None, meta);
    assert(admitted == numbered.inserted(entry));
    assert forall|j: int| 0 <= j < numbered.ops.len() implies !follows(entry.op)(
        #[trigger] numbered.ops[j],
    ) by {
        assert(pool.ops[j].op.submission_id < pool.submission_id);
    }
    lemma_first_where_none(numbered.ops, follows(entry.op));
    let end = pool.ops.len() as int;
    assert(admitted.ops =~= pool.ops.push(entry));
    assert(admitted.oversized());
    let rest = admitted.without(end);
    assert(rest.ops =~= pool.ops);
    admitted.lemma_without_wf(end);
    assert(rest.size() == pool.size());
    assert(!rest.oversized());
    rest.lemma_enforce_size();
    assert(admitted.evicted() == seq![admitted.ops.last().hash] + rest.evicted());
    assert(admitted.evicted() =~= seq![hash]);
    assert(admitted.evicted()[0] == hash);
    assert(admitted.enforce_size() == rest.enforce_size());
    assert(pool.vacated(op.uo, hash) == pool);
}

/// The round trip of a block that is undone. Where a block includes a
/// pooled operation, is undone, and the operation comes back into the pool
/// and is included by another block, the pool holds the operations, pooled
/// and mined, that it would hold had only the second block been there.
///
/// The law is stated for a mined operation that is reported with the hash
/// under which it is pooled, and that the pool lets in again when its
/// block is undone (which it does unless the ledger refuses to back it).
/// What the ledger holds is not part of the law, nor the paymaster that is
/// noted with the mined operation.
#[verifier::rlimit(50)]
pub proof fn lemma_reorg_round_trip(
    pool: PoolView,
    mined_op: MinedOp,
    first_block: u64,
    second_block: u64,
)
    requires
        pool.wf(),
        pool.by_id(mined_op.spec_id()) matches Some(entry) && entry.hash == mined_op.hash,
        pool.mine(mined_op, first_block).readmits(mined_op),
    ensures
        pool.mine(mined_op, first_block).unmine(mined_op).ops == pool.ops,
        pool.mine(mined_op, first_block).unmine(mined_op).mine(mined_op, second_block).ops
            == pool.mine(mined_op, second_block).ops,
        ({
            let round = pool.mine(mined_op, first_block).unmine(mined_op).mine(
                mined_op,
                second_block,
            ).mined;
            let direct = pool.mine(mined_op, second_block).mined;
            &&& round.len() == direct.len() > 0
            &&& round.drop_last() == direct.drop_last()
            &&& round.last().block_number == second_block
            &&& round.last().hash == direct.last().hash
            &&& round.last().op == direct.last().op
        }),
        pool.mine(mined_op, first_block).unmine(mined_op).mine(
            mined_op,
            second_block,
        ).submission_id == pool.submission_id,
        pool.mine(mined_op, first_block).unmine(mined_op).mine(mined_op, second_block).config
            == pool.config,
{
    let id = mined_op.spec_id();
    let hash = mined_op.hash;
    lemma_first_where(pool.ops, id_is(id));
    let at = pool.id_index(id);
    let entry = pool.ops[at];
    pool.lemma_found_at(at);
    lemma_mined(pool, mined_op, first_block);
    lemma_mined(pool, mined_op, second_block);
    let gone = pool.mine(mined_op, first_block);
    let others = lemma_others(pool.mined, hash);
    let kept = MinedEntry {
        block_number: first_block,
        debited: pool.paymaster.reserved_with(id),
        hash,
        op: entry.op,
    };
    assert(gone.mined == others.push(kept));
    lemma_first_where_is(gone.mined, mined_hash_is(hash), others.len() as int);
    let taken = gone.uncached(others.len() as int);
    assert(taken.mined =~= others);
    gone.lemma_uncached_wf(others.len() as int);
    let refunded = taken.refunded(kept, mined_op.actual_gas_cost);
    let po = entry.op.po;
    let op = shared_operation(po);
    if let Some(paymaster) = kept.debited {
        taken.paymaster.lemma_credit_wf(paymaster, mined_op.actual_gas_cost, true);
    }
    assert(refunded.wf());
    let meta = refunded.paymaster_meta(kept);
    assert(refunded.ops == pool.without(at).ops);
    pool.lemma_without_wf(at);
    assert forall|j: int| 0 <= j < refunded.ops.len() implies !hash_is(hash)(
        #[trigger] refunded.ops[j],
    ) && !id_is(id)(refunded.ops[j]) by {}
    lemma_first_where_none(refunded.ops, hash_is(hash));
    lemma_first_where_none(refunded.ops, id_is(op.uo.spec_id()));
    assert(refunded.check_replacement(op.uo, hash) == Ok::<
        Option<H256>,
        MempoolError,
    >(None));
    refunded.lemma_funded_admits(po, hash, Some(entry.op.submission_id), meta);
    let admitted = refunded.admitted(po, hash, Some(entry.op.submission_id), meta);
    lemma_back_in_place(pool, at);
    assert(entry == (PoolEntry {
        hash,
        op: OrderedPoolOperation { po, submission_id: entry.op.submission_id },
    }));
    assert(admitted.ops == pool.ops);
    admitted.lemma_enforce_size();
    let back = gone.unmine(mined_op);
    assert(back == admitted);
    assert(back.mined == others);
    lemma_first_where(back.ops, id_is(id));
    back.lemma_found_at(at);
    lemma_mined(back, mined_op, second_block);
    let again = lemma_others(others, hash);
    assert forall|j: int| 0 <= j < others.len() implies !mined_hash_is(hash)(
        #[trigger] others[j],
    ) by {}
    lemma_first_where_none(others, mined_hash_is(hash));
    assert(again == others);
}

/// What is kept of mined operations when one comes in under `hash`: those
/// with another hash.
proof fn lemma_others(mined: Seq<MinedEntry>, hash: H256) -> (others: Seq<MinedEntry>)
    ensures
        others == if first_where(mined, mined_hash_is(hash)) < mined.len() {
            mined.remove(first_where(mined, mined_hash_is(hash)))
        } else {
            mined
        },
{
    if first_where(mined, mined_hash_is(hash)) < mined.len() {
        mined.remove(first_where(mined, mined_hash_is(hash)))
    } else {
        mined
    }
}

/// What a block does that includes a pooled operation: the operation
/// leaves the pooled ones and is kept as the last of the mined ones, in
/// place of one kept under the same hash.
pub proof fn lemma_mined(pool: PoolView, mined_op: MinedOp, block: u64)
    requires
        pool.wf(),
        pool.id_index(mined_op.spec_id()) < pool.ops.len(),
    ensures
        pool.mine(mined_op, block).wf(),
        pool.mine(mined_op, block).ops == pool.ops.remove(pool.id_index(mined_op.spec_id())),
        pool.mine(mined_op, block).mined == (if pool.mined_index(
            pool.ops[pool.id_index(mined_op.spec_id())].hash,
        ) < pool.mined.len() {
            pool.mined.remove(
                pool.mined_index(pool.ops[pool.id_index(mined_op.spec_id())].hash),
            )
        } else {
            pool.mined
        }).push(
            MinedEntry {
                block_number: block,
                debited: pool.paymaster.reserved_with(mined_op.spec_id()),
                hash: pool.ops[pool.id_index(mined_op.spec_id())].hash,
                op: pool.ops[pool.id_index(mined_op.spec_id())].op,
            },
        ),
        pool.mine(mined_op, block).submission_id == pool.submission_id,
        pool.mine(mined_op, block).config == pool.config,
{
    let id = mined_op.spec_id();
    lemma_first_where(pool.ops, id_is(id));
    let at = pool.id_index(id);
    pool.lemma_found_at(at);
    pool.paymaster.lemma_settle_wf(id, mined_op.actual_gas_cost);
    let settled = PoolView {
        paymaster: pool.paymaster.settle(id, mined_op.actual_gas_cost),
        ..pool
    };
    assert(settled.wf());
    settled.lemma_without_wf(at);
    settled.without(at).lemma_cached_wf(
        pool.ops[at],
        MinedNote {
            block_number: block,
            debited: pool.paymaster.reserved_with(id),
        },
    );
}

} // verus!
