//! Why the changes of the pool keep it well formed.

use crate::ordered::{entry_size, hash_is, id_is, mined_hash_is, MinedEntry, PoolEntry};
use crate::pool_view::PoolView;
use crate::ordered::{follows, shared_operation, MinedNote, OrderedPoolOperation};
use crate::paymaster::{fee_of, PaymasterMetadata, UserOpFee};
use crate::pool_view::{mined_since, unmarked};
use crate::primitives::H256;
use crate::sums::sum_of;
use crate::user_operation::{PoolOperation, UserOperation};
use std::sync::Arc;
use crate::search::{
    first_where, lemma_first_where, lemma_first_where_is, lemma_first_where_none, lemma_retained,
    lemma_retained_pairs, retained,
};
use crate::chain::{BalanceUpdate, MinedOp};
use crate::entity::EntityType;
use crate::ordered::mined_size;
use crate::pool_view::uses;
use crate::primitives::Address;
use crate::sums::{lemma_sum_bound, lemma_sum_insert, lemma_sum_remove};
use vstd::prelude::*;

verus! {

impl PoolView {
    /// Whether `entry` can go in: no pooled operation has its hash or its
    /// sender and nonce, and its submission id is below the next one and in
    /// use nowhere, pooled or mined.
    pub open spec fn admits(self, entry: PoolEntry) -> bool {
        &&& forall|i: int|
            0 <= i < self.ops.len() ==> (#[trigger] self.ops[i]).hash != entry.hash
                && self.ops[i].id() != entry.id() && self.ops[i].op.submission_id
                != entry.op.submission_id
        &&& forall|j: int|
            0 <= j < self.mined.len() ==> (#[trigger] self.mined[j]).op.submission_id
                != entry.op.submission_id
        &&& entry.op.submission_id < self.submission_id
    }

    /// No operation counts for more than `isize::MAX` bytes, nor for more
    /// than one use of an address in a role.
    pub proof fn lemma_bounds(self)
        ensures
            self.size() <= self.ops.len() * isize::MAX,
            self.cache_size() <= self.mined.len() * isize::MAX,
            forall|address: Address, kind: EntityType|
                #![trigger self.count(address, kind)]
                self.count(address, kind) <= self.ops.len(),
    {
        lemma_sum_bound(self.ops, entry_size(), isize::MAX as nat);
        lemma_sum_bound(self.mined, mined_size(), isize::MAX as nat);
        assert forall|address: Address, kind: EntityType|
            #![trigger self.count(address, kind)]
            self.count(address, kind) <= self.ops.len() by {
            lemma_sum_bound(self.ops, uses(kind, address), 1);
        }
    }

    /// A well-formed pool stays so when an operation leaves it, and shrinks
    /// by the size of that operation.
    pub proof fn lemma_without_wf(self, at: int)
        requires
            self.wf_except_size(),
            0 <= at < self.ops.len(),
        ensures
            self.without(at).wf_except_size(),
            self.without(at).size() + self.ops[at].op.spec_mem_size() == self.size(),
            self.without(at).admits(self.ops[at]),
    {
        let after = self.without(at);
        self.paymaster.lemma_release_wf(self.ops[at].id());
        lemma_sum_remove(self.ops, at, entry_size());
        assert forall|i: int| 0 <= i < after.ops.len() implies #[trigger] after.ops[i]
            == self.ops[if i < at {
            i
        } else {
            i + 1
        }] by {}
    }

    /// A well-formed pool stays so when an operation that it admits goes in,
    /// and grows by the size of that operation.
    #[verifier::rlimit(50)]
    pub proof fn lemma_inserted_wf(self, entry: PoolEntry)
        requires
            self.wf_except_size(),
            self.admits(entry),
        ensures
            self.inserted(entry).wf_except_size(),
            self.inserted(entry).size() == self.size() + entry.op.spec_mem_size(),
            0 <= self.insert_index(entry.op) <= self.ops.len(),
    {
        let at = self.insert_index(entry.op);
        lemma_first_where(self.ops, follows(entry.op));
        let after = self.inserted(entry);
        lemma_sum_insert(self.ops, at, entry, entry_size());
        assert forall|i: int| 0 <= i < after.ops.len() implies #[trigger] after.ops[i] == (if i
            < at {
            self.ops[i]
        } else if i == at {
            entry
        } else {
            self.ops[i - 1]
        }) by {}
        assert forall|i: int, j: int| 0 <= i < j < after.ops.len() implies after.ops[i].op.precedes(
            after.ops[j].op,
        ) by {
            if j == at {
                assert(!follows(entry.op)(self.ops[i]));
            } else if i == at {
                if j - 1 > at {
                    assert(self.ops[at].op.precedes(self.ops[j - 1].op));
                }
            }
        }
    }

    /// A well-formed pool stays so when an operation that left it joins the
    /// mined ones.
    pub proof fn lemma_cached_wf(self, entry: PoolEntry, note: MinedNote)
        requires
            self.wf_except_size(),
            self.admits(entry),
        ensures
            self.cached(entry, note).wf_except_size(),
            self.cached(entry, note).ops == self.ops,
    {
        let at = self.mined_index(entry.hash);
        lemma_first_where(self.mined, mined_hash_is(entry.hash));
        let after = self.cached(entry, note);
        let others = if at < self.mined.len() {
            self.mined.remove(at)
        } else {
            self.mined
        };
        assert forall|i: int| 0 <= i < others.len() implies (#[trigger] others[i]).hash
            != entry.hash && self.mined.contains(others[i]) by {
            if at < self.mined.len() {
                let oi = if i < at {
                    i
                } else {
                    i + 1
                };
                assert(others[i] == self.mined[oi]);
                if oi < at {
                    assert(!mined_hash_is(entry.hash)(self.mined[oi]));
                }
            } else {
                assert(!mined_hash_is(entry.hash)(self.mined[i]));
                assert(others[i] == self.mined[i]);
            }
        }
        assert forall|i: int, j: int| 0 <= i < j < others.len() implies others[i].hash
            != others[j].hash && others[i].op.submission_id != others[j].op.submission_id by {
            if at < self.mined.len() {
                let oi = if i < at {
                    i
                } else {
                    i + 1
                };
                let oj = if j < at {
                    j
                } else {
                    j + 1
                };
                assert(others[i] == self.mined[oi]);
                assert(others[j] == self.mined[oj]);
            }
        }
        assert forall|i: int| 0 <= i < after.mined.len() implies #[trigger] after.mined[i] == (if i
            < others.len() {
            others[i]
        } else {
            MinedEntry {
                block_number: note.block_number,
                debited: note.debited,
                hash: entry.hash,
                op: entry.op,
            }
        }) by {}
        assert forall|i: int| 0 <= i < others.len() implies (#[trigger] others[i]).op.submission_id
            < self.submission_id && others[i].op.submission_id != entry.op.submission_id
            && forall|k: int|
            0 <= k < self.ops.len() ==> self.ops[k].op.submission_id
                != others[i].op.submission_id by {
            let item = others[i];
            assert(self.mined.contains(item));
            let w = choose|w: int| 0 <= w < self.mined.len() && self.mined[w] == item;
            assert(self.mined[w].op.submission_id < self.submission_id);
        }
    }
}

impl PoolView {
    /// A well-formed pool stays so when the operation with a given hash
    /// leaves it, and does not grow.
    pub proof fn lemma_remove_wf(
        self,
        hash: H256,
        note: Option<MinedNote>,
    )
        requires
            self.wf_except_size(),
        ensures
            self.remove(hash, note).wf_except_size(),
            self.remove(hash, note).size() <= self.size(),
            self.remove(hash, note).submission_id == self.submission_id,
            self.remove(hash, note).config == self.config,
    {
        let at = self.hash_index(hash);
        lemma_first_where(self.ops, hash_is(hash));
        if at < self.ops.len() {
            self.lemma_without_wf(at);
            if let Some(mined) = note {
                self.without(at).lemma_cached_wf(self.ops[at], mined);
            }
        }
    }

    /// After the operation that a newcomer replaces has left, the pool
    /// holds no operation with the hash or with the sender and nonce of the
    /// newcomer, and nothing that it did not hold before.
    pub proof fn lemma_vacated(self, uo: UserOperation, hash: H256)
        requires
            self.wf_except_size(),
            self.check_replacement(uo, hash) is Ok,
        ensures
            self.vacated(uo, hash).wf_except_size(),
            self.vacated(uo, hash).size() <= self.size(),
            self.vacated(uo, hash).submission_id == self.submission_id,
            self.vacated(uo, hash).config == self.config,
            self.vacated(uo, hash).mined == self.mined,
            forall|i: int|
                0 <= i < self.vacated(uo, hash).ops.len() ==> (#[trigger] self.vacated(
                    uo,
                    hash,
                ).ops[i]).hash != hash && self.vacated(uo, hash).ops[i].id() != uo.spec_id()
                    && self.ops.contains(self.vacated(uo, hash).ops[i]),
    {
        let after = self.vacated(uo, hash);
        lemma_first_where(self.ops, hash_is(hash));
        lemma_first_where(self.ops, id_is(uo.spec_id()));
        let at = self.id_index(uo.spec_id());
        if at < self.ops.len() {
            let replaced = self.ops[at].hash;
            lemma_first_where(self.ops, hash_is(replaced));
            assert(self.hash_index(replaced) == at) by {
                let found = self.hash_index(replaced);
                if found < at {
                    assert(self.ops[found].hash == self.ops[at].hash);
                }
            }
            self.lemma_without_wf(at);
            assert(after == self.without(at));
            assert forall|i: int| 0 <= i < after.ops.len() implies (#[trigger] after.ops[i]).hash
                != hash && after.ops[i].id() != uo.spec_id() && self.ops.contains(
                after.ops[i],
            ) by {
                let oi = if i < at {
                    i
                } else {
                    i + 1
                };
                assert(after.ops[i] == self.ops[oi]);
                assert(!hash_is(hash)(self.ops[oi]));
            }
        } else {
            assert forall|i: int| 0 <= i < after.ops.len() implies (#[trigger] after.ops[i]).hash
                != hash && after.ops[i].id() != uo.spec_id() && self.ops.contains(
                after.ops[i],
            ) by {
                assert(!hash_is(hash)(self.ops[i]));
                assert(!id_is(uo.spec_id())(self.ops[i]));
            }
        }
    }
}

impl PoolView {
    /// In a well-formed pool an operation is found under its own hash and
    /// under its own sender and nonce.
    pub proof fn lemma_found_at(self, at: int)
        requires
            self.wf_except_size(),
            0 <= at < self.ops.len(),
        ensures
            self.hash_index(self.ops[at].hash) == at,
            self.id_index(self.ops[at].id()) == at,
    {
        lemma_first_where_is(self.ops, hash_is(self.ops[at].hash), at);
        lemma_first_where_is(self.ops, id_is(self.ops[at].id()), at);
    }

    /// A well-formed pool stays so when a mined operation leaves the mined
    /// ones, and then admits that operation.
    pub proof fn lemma_uncached_wf(self, at: int)
        requires
            self.wf_except_size(),
            0 <= at < self.mined.len(),
        ensures
            (PoolView { mined: self.mined.remove(at), ..self }).wf_except_size(),
            forall|j: int|
                0 <= j < self.mined.remove(at).len() ==> (#[trigger] self.mined.remove(
                    at,
                )[j]).op.submission_id != self.mined[at].op.submission_id,
            forall|i: int|
                0 <= i < self.ops.len() ==> (#[trigger] self.ops[i]).op.submission_id
                    != self.mined[at].op.submission_id,
            self.mined[at].op.submission_id < self.submission_id,
            sum_of_mined(self.mined.remove(at)) + self.mined[at].op.spec_mem_size() == sum_of_mined(
                self.mined,
            ),
    {
        let after = self.mined.remove(at);
        lemma_sum_remove(self.mined, at, mined_size());
        assert forall|j: int| 0 <= j < after.len() implies #[trigger] after[j] == self.mined[if j
            < at {
            j
        } else {
            j + 1
        }] by {}
    }

    /// A well-formed pool stays so when mined operations are forgotten.
    pub proof fn lemma_forget_wf(self, block: u64)
        requires
            self.wf_except_size(),
        ensures
            self.forget(block).wf_except_size(),
    {
        let kept = retained(self.mined, mined_since(block));
        lemma_retained(self.mined, mined_since(block));
        lemma_retained_pairs(
            self.mined,
            mined_since(block),
            |a: MinedEntry, b: MinedEntry|
                a.hash != b.hash && a.op.submission_id != b.op.submission_id,
        );
        assert forall|i: int| 0 <= i < kept.len() implies (#[trigger] kept[i]).op.submission_id
            < self.submission_id && forall|k: int|
            0 <= k < self.ops.len() ==> self.ops[k].op.submission_id
                != kept[i].op.submission_id by {
            assert(self.mined.contains(kept[i]));
            let w = choose|w: int| 0 <= w < self.mined.len() && self.mined[w] == kept[i];
            assert(self.mined[w].op.submission_id < self.submission_id);
        }
    }
}

/// The bytes that mined operations take.
pub open spec fn sum_of_mined(mined: Seq<MinedEntry>) -> nat {
    sum_of(mined, mined_size())
}

impl PoolView {
    /// Whether the submission id under which an operation asks to come in
    /// can be used: none is given and one is left to hand out, or the one
    /// given is below the next one and in use nowhere.
    pub open spec fn can_number(self, submission_id: Option<u64>) -> bool {
        match submission_id {
            None => self.submission_id < u64::MAX,
            Some(given) => {
                &&& given < self.submission_id
                &&& forall|i: int|
                    0 <= i < self.ops.len() ==> (#[trigger] self.ops[i]).op.submission_id != given
                &&& forall|j: int|
                    0 <= j < self.mined.len() ==> (#[trigger] self.mined[j]).op.submission_id
                        != given
            },
        }
    }

    /// How many of the best operations stay when the pool is brought
    /// within its size.
    pub open spec fn kept(self) -> nat {
        self.enforce_size().ops.len()
    }

    /// Bringing the pool within its size takes operations from the end
    /// only: the best stay as they stand, the hashes of the others are
    /// those that leave, and the pool is well formed afterwards.
    pub proof fn lemma_enforce_size(self)
        requires
            self.wf_except_size(),
        ensures
            self.enforce_size().wf(),
            self.kept() <= self.ops.len(),
            self.enforce_size().ops == self.ops.subrange(0, self.kept() as int),
            self.enforce_size().mined == self.mined,
            self.enforce_size().submission_id == self.submission_id,
            self.enforce_size().config == self.config,
            self.evicted().len() == self.ops.len() - self.kept(),
            forall|i: int|
                self.kept() <= i < self.ops.len() ==> self.evicted().contains(
                    (#[trigger] self.ops[i]).hash,
                ),
            forall|i: int|
                0 <= i < self.kept() ==> !self.evicted().contains((#[trigger] self.ops[i]).hash),
            !self.oversized() ==> self.enforce_size() == self && self.evicted().len() == 0,
        decreases self.ops.len(),
    {
        if self.oversized() {
            let last = self.ops.len() - 1;
            let rest = self.without(last);
            self.lemma_without_wf(last);
            rest.lemma_enforce_size();
            assert(rest.ops =~= self.ops.subrange(0, last));
            assert(self.enforce_size().ops =~= self.ops.subrange(0, self.kept() as int));
            let gone = self.evicted();
            assert(gone == seq![self.ops.last().hash] + rest.evicted());
            assert forall|i: int| self.kept() <= i < self.ops.len() implies gone.contains(
                (#[trigger] self.ops[i]).hash,
            ) by {
                if i == last {
                    assert(gone[0] == self.ops[last].hash);
                } else {
                    assert(rest.ops[i] == self.ops[i]);
                    assert(rest.evicted().contains(rest.ops[i].hash));
                    let w = choose|w: int|
                        0 <= w < rest.evicted().len() && rest.evicted()[w] == rest.ops[i].hash;
                    assert(gone[w + 1] == rest.evicted()[w]);
                }
            }
            assert forall|i: int| 0 <= i < self.kept() implies !gone.contains(
                (#[trigger] self.ops[i]).hash,
            ) by {
                assert(rest.ops[i] == self.ops[i]);
                if gone.contains(self.ops[i].hash) {
                    let w = choose|w: int| 0 <= w < gone.len() && gone[w] == self.ops[i].hash;
                    if w == 0 {
                        assert(self.ops[i].hash != self.ops[last].hash);
                    } else {
                        assert(gone[w] == rest.evicted()[w - 1]);
                        assert(rest.evicted().contains(rest.ops[i].hash));
                    }
                }
            }
        } else {
            assert(self.enforce_size().ops =~= self.ops.subrange(0, self.ops.len() as int));
            if self.ops.len() == 0 {
                assert(self.size() == 0);
            }
        }
    }

    /// The operation that asks to come in is admitted by the pool that its
    /// forerunner has left and that the ledger was asked in.
    #[verifier::rlimit(50)]
    pub proof fn lemma_funded_admits(
        self,
        po: Arc<PoolOperation>,
        hash: H256,
        submission_id: Option<u64>,
        meta: Option<PaymasterMetadata>,
    )
        requires
            self.wf(),
            self.can_number(submission_id),
            self.check_replacement(po.uo, hash) is Ok,
        ensures
            self.vacated(po.uo, hash).funded(*po, meta).wf(),
            self.vacated(po.uo, hash).funded(*po, meta).ops == self.vacated(po.uo, hash).ops,
            self.vacated(po.uo, hash).funded(*po, meta).mined == self.mined,
            self.vacated(po.uo, hash).funded(*po, meta).submission_id == self.submission_id,
            self.vacated(po.uo, hash).funded(*po, meta).config == self.config,
            self.admitted(po, hash, submission_id, meta).wf_except_size(),
            self.admitted(po, hash, submission_id, meta).config == self.config,
            self.admitted(po, hash, submission_id, meta).mined == self.mined,
            self.admitted(po, hash, submission_id, meta).size() == self.vacated(po.uo, hash).size()
                + (OrderedPoolOperation { po, submission_id: 0 }).spec_mem_size(),
    {
        let op = shared_operation(po);
        let uo = op.uo;
        let vacated = self.vacated(uo, hash);
        self.lemma_vacated(uo, hash);
        let funded = vacated.funded(op, meta);
        if PoolView::reserves(op, meta) {
            vacated.paymaster.lemma_reserve_wf(
                uo.spec_id(),
                uo.spec_max_gas_cost(),
                meta->0,
            );
        }
        assert(funded.wf());
        let given = match submission_id {
            Some(given) => given,
            None => funded.submission_id,
        };
        let entry = PoolEntry {
            hash,
            op: OrderedPoolOperation { po, submission_id: given },
        };
        let numbered = match submission_id {
            Some(_) => funded,
            None => PoolView { submission_id: (funded.submission_id + 1) as u64, ..funded },
        };
        assert(numbered.wf_except_size());
        assert forall|i: int| 0 <= i < numbered.ops.len() implies (
        #[trigger] numbered.ops[i]).hash != entry.hash && numbered.ops[i].id() != entry.id()
            && numbered.ops[i].op.submission_id != entry.op.submission_id by {
            let item = vacated.ops[i];
            assert(self.ops.contains(item));
            let w = choose|w: int| 0 <= w < self.ops.len() && self.ops[w] == item;
            assert(self.ops[w].op.submission_id < self.submission_id);
        }
        assert(numbered.admits(entry));
        numbered.lemma_inserted_wf(entry);
        assert(self.admitted(po, hash, submission_id, meta) == numbered.inserted(entry));
    }

    /// A well-formed pool stays so, and within its size, when an operation
    /// asks to come in.
    pub proof fn lemma_add_wf(
        self,
        po: Arc<PoolOperation>,
        hash: H256,
        submission_id: Option<u64>,
        meta: Option<PaymasterMetadata>,
    )
        requires
            self.wf(),
            submission_id is Some ==> self.can_number(submission_id),
        ensures
            self.add(po, hash, submission_id, meta).wf(),
            self.add(po, hash, submission_id, meta).config == self.config,
    {
        let op = shared_operation(po);
        let uo = op.uo;
        if submission_id is None && self.submission_id == u64::MAX {
        } else if self.check_replacement(uo, hash) is Err {
        } else {
            self.lemma_funded_admits(po, hash, submission_id, meta);
            if self.vacated(uo, hash).can_fund(op, meta) {
                self.admitted(po, hash, submission_id, meta).lemma_enforce_size();
            }
        }
    }
}

impl PoolView {
    /// Taking the marked ones among the first operations out leaves the
    /// unmarked ones among them, and every operation after them, as they
    /// stand; the pool stays well formed and does not grow.
    pub proof fn lemma_purge(self, marks: Seq<bool>, upto: int)
        requires
            self.wf_except_size(),
            0 <= upto <= self.ops.len(),
            upto <= marks.len(),
        ensures
            self.purge(marks, upto).wf_except_size(),
            self.purge(marks, upto).ops == unmarked(
                self.ops.subrange(0, upto),
                marks,
            ) + self.ops.subrange(upto, self.ops.len() as int),
            self.purge(marks, upto).size() <= self.size(),
            self.purge(marks, upto).mined == self.mined,
            self.purge(marks, upto).config == self.config,
            self.purge(marks, upto).submission_id == self.submission_id,
        decreases upto,
    {
        if upto > 0 {
            let last = upto - 1;
            assert(self.ops.subrange(0, upto).drop_last() =~= self.ops.subrange(0, last));
            if marks[last] {
                let rest = self.without(last);
                self.lemma_without_wf(last);
                rest.lemma_purge(marks, last);
                assert(rest.ops.subrange(0, last) =~= self.ops.subrange(0, last));
                assert(rest.ops.subrange(last, rest.ops.len() as int) =~= self.ops.subrange(
                    upto,
                    self.ops.len() as int,
                ));
            } else {
                self.lemma_purge(marks, last);
                assert(unmarked(self.ops.subrange(0, last), marks)
                    + self.ops.subrange(last, self.ops.len() as int)
                    =~= unmarked(self.ops.subrange(0, upto), marks)
                    + self.ops.subrange(upto, self.ops.len() as int));
            }
        } else {
            assert(self.ops.subrange(0, 0) =~= Seq::<PoolEntry>::empty());
            assert(self.ops.subrange(0, self.ops.len() as int) =~= self.ops);
        }
    }
}

/// Where the marks are set on exactly the operations that are not to be
/// kept, the unmarked operations are those that are kept.
pub proof fn lemma_unmarked_are_kept(
    ops: Seq<PoolEntry>,
    marks: Seq<bool>,
    keep: spec_fn(PoolEntry) -> bool,
)
    requires
        marks.len() >= ops.len(),
        forall|i: int| 0 <= i < ops.len() ==> marks[i] == !keep(#[trigger] ops[i]),
    ensures
        unmarked(ops, marks) == retained(ops, keep),
    decreases ops.len(),
{
    if ops.len() > 0 {
        let shorter = ops.drop_last();
        assert forall|i: int| 0 <= i < shorter.len() implies marks[i] == !keep(
            #[trigger] shorter[i],
        ) by {
            assert(shorter[i] == ops[i]);
        }
        lemma_unmarked_are_kept(shorter, marks, keep);
        assert(marks[ops.len() - 1] == !keep(ops[ops.len() - 1]));
    }
}

impl PoolView {
    /// A reservation that is held for a pooled operation is still held for
    /// one when another operation leaves the pool.
    pub proof fn lemma_still_held(self, at: int, fee: UserOpFee)
        requires
            self.wf_except_size(),
            0 <= at < self.ops.len(),
            self.holds_for_pooled(fee),
            fee.id != self.ops[at].id(),
        ensures
            self.without(at).holds_for_pooled(fee),
    {
        let found = self.id_index(fee.id);
        lemma_first_where(self.ops, id_is(fee.id));
        let rest = self.without(at).ops;
        let moved = if found < at {
            found
        } else {
            found - 1
        };
        assert(rest[moved] == self.ops[found]);
        assert forall|j: int| 0 <= j < moved implies !id_is(fee.id)(#[trigger] rest[j]) by {
            let w = if j < at {
                j
            } else {
                j + 1
            };
            assert(rest[j] == self.ops[w]);
        }
        lemma_first_where_is(rest, id_is(fee.id), moved);
    }

    /// Where every reservation is held for a pooled operation, that is
    /// still so when an operation leaves the pool.
    pub proof fn lemma_without_keeps_reservations(self, at: int)
        requires
            self.wf_except_size(),
            0 <= at < self.ops.len(),
            self.reservations_pooled(),
        ensures
            self.without(at).reservations_pooled(),
    {
        let id = self.ops[at].id();
        let after = self.without(at);
        self.paymaster.lemma_release_wf(id);
        let gone = self.paymaster.fee_index(id);
        lemma_first_where(self.paymaster.fees, fee_of(id));
        assert forall|i: int| 0 <= i < after.paymaster.fees.len() implies after.holds_for_pooled(
            #[trigger] after.paymaster.fees[i],
        ) by {
            let fee = after.paymaster.fees[i];
            if gone < self.paymaster.fees.len() {
                let w = if i < gone {
                    i
                } else {
                    i + 1
                };
                assert(fee == self.paymaster.fees[w]);
                assert(self.holds_for_pooled(self.paymaster.fees[w]));
            } else {
                assert(fee == self.paymaster.fees[i]);
                assert(!fee_of(id)(self.paymaster.fees[i]));
            }
            self.lemma_still_held(at, fee);
        }
    }

    /// Where every reservation is held for a pooled operation, but for one
    /// of an operation that the pool admits, and that operation goes in,
    /// every reservation is held for a pooled operation.
    pub proof fn lemma_inserted_keeps_reservations(self, entry: PoolEntry)
        requires
            self.wf_except_size(),
            self.admits(entry),
            self.reservations_pooled_but(entry.id(), entry.op.po.uo.spec_max_gas_cost()),
        ensures
            self.inserted(entry).reservations_pooled(),
    {
        let after = self.inserted(entry);
        self.lemma_inserted_wf(entry);
        let place = self.insert_index(entry.op);
        assert forall|i: int| 0 <= i < after.paymaster.fees.len() implies after.holds_for_pooled(
            #[trigger] after.paymaster.fees[i],
        ) by {
            let fee = after.paymaster.fees[i];
            if fee.id == entry.id() {
                assert forall|j: int| 0 <= j < self.ops.len() implies !id_is(fee.id)(
                    #[trigger] self.ops[j],
                ) by {}
                lemma_first_where_none(self.ops, id_is(fee.id));
                assert(!self.holds_for_pooled(fee));
                assert(after.ops[place] == entry);
                after.lemma_found_at(place);
            } else {
                assert(self.holds_for_pooled(fee));
                let found = self.id_index(fee.id);
                lemma_first_where(self.ops, id_is(fee.id));
                let moved = if found < place {
                    found
                } else {
                    found + 1
                };
                assert(after.ops[moved] == self.ops[found]);
                after.lemma_found_at(moved);
            }
        }
    }

    /// Where every reservation is held for a pooled operation, that is
    /// still so when the pool is brought within its size.
    pub proof fn lemma_enforce_size_keeps_reservations(self)
        requires
            self.wf_except_size(),
            self.reservations_pooled(),
        ensures
            self.enforce_size().reservations_pooled(),
        decreases self.ops.len(),
    {
        if self.oversized() {
            let last = self.ops.len() - 1;
            self.lemma_without_wf(last);
            self.lemma_without_keeps_reservations(last);
            self.without(last).lemma_enforce_size_keeps_reservations();
        }
    }

    /// Where every reservation is held for a pooled operation, that is
    /// still so when marked operations leave the pool.
    pub proof fn lemma_purge_keeps_reservations(self, marks: Seq<bool>, upto: int)
        requires
            self.wf_except_size(),
            0 <= upto <= self.ops.len(),
            upto <= marks.len(),
            self.reservations_pooled(),
        ensures
            self.purge(marks, upto).reservations_pooled(),
        decreases upto,
    {
        if upto > 0 {
            if marks[upto - 1] {
                self.lemma_without_wf(upto - 1);
                self.lemma_without_keeps_reservations(upto - 1);
                self.without(upto - 1).lemma_purge_keeps_reservations(marks, upto - 1);
            } else {
                self.lemma_purge_keeps_reservations(marks, upto - 1);
            }
        }
    }

    /// Where every reservation is held for a pooled operation, that is
    /// still so when the operation with a given hash leaves the pool.
    pub proof fn lemma_remove_keeps_reservations(self, hash: H256, note: Option<MinedNote>)
        requires
            self.wf_except_size(),
            self.reservations_pooled(),
        ensures
            self.remove(hash, note).reservations_pooled(),
    {
        let at = self.hash_index(hash);
        lemma_first_where(self.ops, hash_is(hash));
        if at < self.ops.len() {
            self.lemma_without_keeps_reservations(at);
            if let Some(mined) = note {
                let rest = self.without(at);
                let kept = rest.cached(self.ops[at], mined);
                assert(kept.ops == rest.ops);
                assert(kept.paymaster == rest.paymaster);
                assert forall|i: int| 0 <= i < kept.paymaster.fees.len() implies kept.holds_for_pooled(
                    #[trigger] kept.paymaster.fees[i],
                ) by {
                    assert(rest.holds_for_pooled(rest.paymaster.fees[i]));
                }
            }
        }
    }

    /// Where every reservation is held for a pooled operation, that is
    /// still so when an operation asks to come in.
    #[verifier::rlimit(50)]
    pub proof fn lemma_add_keeps_reservations(
        self,
        po: Arc<PoolOperation>,
        hash: H256,
        submission_id: Option<u64>,
        meta: Option<PaymasterMetadata>,
    )
        requires
            self.wf(),
            submission_id is Some ==> self.can_number(submission_id),
            self.reservations_pooled(),
        ensures
            self.add(po, hash, submission_id, meta).reservations_pooled(),
    {
        let op = shared_operation(po);
        let uo = op.uo;
        if submission_id is None && self.submission_id == u64::MAX {
        } else if self.check_replacement(uo, hash) is Err {
        } else {
            let id = uo.spec_id();
            let cost = uo.spec_max_gas_cost();
            self.lemma_vacated(uo, hash);
            self.lemma_funded_admits(po, hash, submission_id, meta);
            let vacated = self.vacated(uo, hash);
            match self.check_replacement(uo, hash) {
                Ok(Some(replaced)) => {
                    self.lemma_remove_keeps_reservations(replaced, None);
                },
                _ => {},
            }
            assert(vacated.reservations_pooled());
            let funded = vacated.funded(op, meta);
            // no operation of the newcomer's sender and nonce is pooled, so
            // none of the reservations that are held for pooled operations
            // is one of the newcomer
            assert forall|j: int| 0 <= j < vacated.ops.len() implies !id_is(id)(
                #[trigger] vacated.ops[j],
            ) by {}
            lemma_first_where_none(vacated.ops, id_is(id));
            if PoolView::reserves(op, meta) {
                let known = meta->0;
                vacated.paymaster.lemma_release_wf(id);
                let base = vacated.paymaster.release(id);
                let gone = vacated.paymaster.fee_index(id);
                lemma_first_where(vacated.paymaster.fees, fee_of(id));
                assert(gone == vacated.paymaster.fees.len()) by {
                    if gone < vacated.paymaster.fees.len() {
                        assert(vacated.holds_for_pooled(vacated.paymaster.fees[gone]));
                    }
                }
                assert(base == vacated.paymaster);
                assert forall|i: int|
                    0 <= i < funded.paymaster.fees.len() implies ((
                #[trigger] funded.paymaster.fees[i]).id == id && funded.paymaster.fees[i].cost
                    == cost) || funded.holds_for_pooled(funded.paymaster.fees[i]) by {
                    if i < vacated.paymaster.fees.len() {
                        assert(funded.paymaster.fees[i] == vacated.paymaster.fees[i]);
                        assert(vacated.holds_for_pooled(vacated.paymaster.fees[i]));
                    }
                }
            } else {
                assert forall|i: int|
                    0 <= i < funded.paymaster.fees.len() implies ((
                #[trigger] funded.paymaster.fees[i]).id == id && funded.paymaster.fees[i].cost
                    == cost) || funded.holds_for_pooled(funded.paymaster.fees[i]) by {
                    assert(vacated.holds_for_pooled(vacated.paymaster.fees[i]));
                }
            }
            assert(funded.reservations_pooled_but(id, cost));
            if !vacated.can_fund(op, meta) {
                // the reservation was not made
                assert forall|i: int|
                    0 <= i < funded.paymaster.fees.len() implies funded.holds_for_pooled(
                    #[trigger] funded.paymaster.fees[i],
                ) by {
                    assert(funded.paymaster.fees[i] == vacated.paymaster.fees[i]);
                    assert(vacated.holds_for_pooled(vacated.paymaster.fees[i]));
                }
            } else {
                let given = match submission_id {
                    Some(given) => given,
                    None => funded.submission_id,
                };
                let entry = PoolEntry {
                    hash,
                    op: OrderedPoolOperation { po, submission_id: given },
                };
                let numbered = match submission_id {
                    Some(_) => funded,
                    None => PoolView {
                        submission_id: (funded.submission_id + 1) as u64,
                        ..funded
                    },
                };
                assert(numbered.wf_except_size());
                assert forall|i: int| 0 <= i < numbered.ops.len() implies (
                #[trigger] numbered.ops[i]).hash != entry.hash && numbered.ops[i].id()
                    != entry.id() && numbered.ops[i].op.submission_id
                    != entry.op.submission_id by {
                    let item = vacated.ops[i];
                    assert(self.ops.contains(item));
                    let w = choose|w: int| 0 <= w < self.ops.len() && self.ops[w] == item;
                    assert(self.ops[w].op.submission_id < self.submission_id);
                }
                assert(numbered.admits(entry));
                assert forall|i: int|
                    0 <= i < numbered.paymaster.fees.len() implies ((
                #[trigger] numbered.paymaster.fees[i]).id == entry.id()
                    && numbered.paymaster.fees[i].cost == cost) || numbered.holds_for_pooled(
                    numbered.paymaster.fees[i],
                ) by {
                    let fee = funded.paymaster.fees[i];
                    assert((fee.id == id && fee.cost == cost) || funded.holds_for_pooled(fee));
                }
                numbered.lemma_inserted_keeps_reservations(entry);
                numbered.lemma_inserted_wf(entry);
                let admitted = self.admitted(po, hash, submission_id, meta);
                assert(admitted == numbered.inserted(entry));
                admitted.lemma_enforce_size_keeps_reservations();
            }
        }
    }
}

impl PoolView {
    /// Where every reservation is held for a pooled operation, that is
    /// still so when reservations are given back and nothing else changes.
    pub proof fn lemma_fewer_reservations(self, other: PoolView)
        requires
            self.reservations_pooled(),
            other.ops == self.ops,
            forall|i: int|
                0 <= i < other.paymaster.fees.len() ==> self.paymaster.fees.contains(
                    #[trigger] other.paymaster.fees[i],
                ),
        ensures
            other.reservations_pooled(),
    {
        assert forall|i: int| 0 <= i < other.paymaster.fees.len() implies other.holds_for_pooled(
            #[trigger] other.paymaster.fees[i],
        ) by {
            let fee = other.paymaster.fees[i];
            assert(self.paymaster.fees.contains(fee));
            let w = choose|w: int|
                0 <= w < self.paymaster.fees.len() && self.paymaster.fees[w] == fee;
            assert(self.holds_for_pooled(self.paymaster.fees[w]));
        }
    }

    /// Where every reservation is held for a pooled operation, that is
    /// still so when a block includes an operation.
    #[verifier::rlimit(50)]
    pub proof fn lemma_mine_keeps_reservations(self, mined_op: MinedOp, block: u64)
        requires
            self.wf(),
            self.reservations_pooled(),
        ensures
            self.mine(mined_op, block).reservations_pooled(),
    {
        let id = mined_op.spec_id();
        let at = self.id_index(id);
        lemma_first_where(self.ops, id_is(id));
        if at < self.ops.len() {
            self.paymaster.lemma_settle_wf(id, mined_op.actual_gas_cost);
            self.paymaster.lemma_release_wf(id);
            let settled = PoolView {
                paymaster: self.paymaster.settle(id, mined_op.actual_gas_cost),
                ..self
            };
            let gone = self.paymaster.fee_index(id);
            lemma_first_where(self.paymaster.fees, fee_of(id));
            assert forall|i: int|
                0 <= i < settled.paymaster.fees.len() implies self.paymaster.fees.contains(
                #[trigger] settled.paymaster.fees[i],
            ) by {
                if gone < self.paymaster.fees.len() {
                    let w = if i < gone {
                        i
                    } else {
                        i + 1
                    };
                    assert(settled.paymaster.fees[i] == self.paymaster.fees[w]);
                } else {
                    assert(settled.paymaster.fees[i] == self.paymaster.fees[i]);
                }
            }
            self.lemma_fewer_reservations(settled);
            settled.lemma_remove_keeps_reservations(
                self.ops[at].hash,
                Some(
                    MinedNote {
                        block_number: block,
                        debited: self.paymaster.reserved_with(id),
                    },
                ),
            );
        }
    }

    /// Where every reservation is held for a pooled operation, that is
    /// still so when the block of an operation is undone.
    pub proof fn lemma_unmine_keeps_reservations(self, mined_op: MinedOp)
        requires
            self.wf(),
            self.reservations_pooled(),
        ensures
            self.unmine(mined_op).reservations_pooled(),
            self.unmine(mined_op).wf(),
    {
        let at = self.mined_index(mined_op.hash);
        lemma_first_where(self.mined, mined_hash_is(mined_op.hash));
        if at < self.mined.len() {
            let entry = self.mined[at];
            self.lemma_uncached_wf(at);
            let taken = self.uncached(at);
            let refunded = taken.refunded(entry, mined_op.actual_gas_cost);
            if let Some(paymaster) = entry.debited {
                taken.paymaster.lemma_credit_wf(paymaster, mined_op.actual_gas_cost, true);
            }
            assert(refunded.wf());
            assert forall|i: int|
                0 <= i < refunded.paymaster.fees.len() implies self.paymaster.fees.contains(
                #[trigger] refunded.paymaster.fees[i],
            ) by {
                assert(refunded.paymaster.fees[i] == self.paymaster.fees[i]);
            }
            self.lemma_fewer_reservations(refunded);
            refunded.lemma_add_keeps_reservations(
                entry.op.po,
                entry.hash,
                Some(entry.op.submission_id),
                refunded.paymaster_meta(entry),
            );
            refunded.lemma_add_wf(
                entry.op.po,
                entry.hash,
                Some(entry.op.submission_id),
                refunded.paymaster_meta(entry),
            );
        }
    }

    /// Where every reservation is held for a pooled operation, that is
    /// still so when the ledger takes note of deposits and withdrawals; the
    /// pool stays well formed.
    pub proof fn lemma_credited(self, updates: Seq<BalanceUpdate>, undo: bool, count: nat)
        requires
            self.wf(),
        ensures
            self.credited(updates, undo, count).wf(),
            self.credited(updates, undo, count).ops == self.ops,
            self.credited(updates, undo, count).paymaster.fees == self.paymaster.fees,
            self.reservations_pooled() ==> self.credited(
                updates,
                undo,
                count,
            ).reservations_pooled(),
        decreases count,
    {
        if count > 0 {
            let before = self.credited(updates, undo, (count - 1) as nat);
            self.lemma_credited(updates, undo, (count - 1) as nat);
            let update = updates[count - 1];
            before.paymaster.lemma_credit_wf(
                update.address,
                update.amount,
                update.is_addition != undo,
            );
            let after = self.credited(updates, undo, count);
            if self.reservations_pooled() {
                assert forall|i: int|
                    0 <= i < after.paymaster.fees.len() implies after.holds_for_pooled(
                    #[trigger] after.paymaster.fees[i],
                ) by {
                    assert(self.holds_for_pooled(self.paymaster.fees[i]));
                }
            }
        }
    }
}

} // verus!
