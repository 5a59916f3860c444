//! For each address, how many pooled operations use it, by role.

use crate::entity::{EntityCounter, EntityType};
use crate::primitives::Address;
use crate::search::{
    first_where, lemma_first_where, lemma_first_where_is, lemma_first_where_none,
    lemma_first_where_same,
};
use vstd::prelude::*;

verus! {

/// The counter kept for one address.
#[derive(Clone, Copy, Debug, PartialEq, Eq, Structural)]
pub struct AddressCount {
    pub address: Address,
    pub counter: EntityCounter,
}

/// The property of being the record of `address`.
pub open spec fn address_is(address: Address) -> spec_fn(AddressCount) -> bool {
    |record: AddressCount| record.address == address
}

/// Counters by address. An address whose counts are all zero has no record.
#[derive(Debug)]
pub struct AddressCounts {
    records: Vec<AddressCount>,
}

impl AddressCounts {
    /// The counter kept for `address`, if it has one.
    pub closed spec fn spec_get(&self, address: Address) -> Option<EntityCounter> {
        let at = first_where(self.records@, address_is(address));
        if at < self.records@.len() {
            Some(self.records@[at].counter)
        } else {
            None
        }
    }

    /// How many operations use `address` in the role `kind`.
    pub open spec fn count(&self, address: Address, kind: EntityType) -> nat {
        match self.spec_get(address) {
            Some(counter) => counter.spec_get(kind),
            None => 0,
        }
    }

    /// How many times operations use `address`, over all roles.
    pub open spec fn spec_total(&self, address: Address) -> nat {
        self.count(address, EntityType::Account) + self.count(address, EntityType::Paymaster)
            + self.count(address, EntityType::Aggregator) + self.count(
            address,
            EntityType::Factory,
        )
    }

    /// No address has two records, and no record has all its counts at zero.
    pub closed spec fn wf(&self) -> bool {
        &&& forall|i: int, j: int|
            0 <= i < j < self.records@.len() ==> self.records@[i].address
                != self.records@[j].address
        &&& forall|i: int|
            0 <= i < self.records@.len() ==> (#[trigger] self.records@[i]).counter.spec_total() > 0
    }

    /// An address has a record exactly when some count of it is not zero.
    pub proof fn lemma_present_iff_counted(&self, address: Address)
        requires
            self.wf(),
        ensures
            self.spec_get(address) is Some <==> self.spec_total(address) > 0,
            self.spec_get(address) matches Some(counter) ==> counter.spec_total()
                == self.spec_total(address),
    {
        lemma_first_where(self.records@, address_is(address));
    }

    /// Counters for no address at all.
    pub fn new() -> (counts: AddressCounts)
        ensures
            counts.wf(),
            forall|address: Address| counts.spec_get(address) is None,
    {
        let counts = AddressCounts { records: Vec::new() };
        assert(counts.records@.len() == 0);
        counts
    }

    fn find(&self, address: &Address) -> (at: usize)
        ensures
            at == first_where(self.records@, address_is(*address)),
            at <= self.records@.len(),
    {
        let mut at: usize = 0;
        while at < self.records.len()
            invariant
                at <= self.records@.len(),
                forall|j: int| 0 <= j < at ==> self.records@[j].address != *address,
            decreases self.records@.len() - at,
        {
            if self.records[at].address == *address {
                proof {
                    lemma_first_where_is(self.records@, address_is(*address), at as int);
                }
                return at;
            }
            at += 1;
        }
        proof {
            lemma_first_where_none(self.records@, address_is(*address));
        }
        at
    }

    /// The counter kept for `address`, if it has one.
    pub fn get(&self, address: &Address) -> (counter: Option<EntityCounter>)
        ensures
            counter == self.spec_get(*address),
    {
        let at = self.find(address);
        if at < self.records.len() {
            Some(self.records[at].counter)
        } else {
            None
        }
    }

    /// How many times operations use `address`, over all roles.
    pub fn total(&self, address: &Address) -> (total: u128)
        ensures
            total == self.spec_total(*address),
    {
        match self.get(address) {
            Some(counter) => counter.total(),
            None => 0,
        }
    }

    /// Counts one more operation that uses `address` in the role `kind`.
    pub fn increment(&mut self, address: Address, kind: EntityType)
        requires
            old(self).wf(),
            old(self).count(address, kind) < u64::MAX,
        ensures
            final(self).wf(),
            forall|a: Address, k: EntityType|
                #![trigger final(self).count(a, k)]
                final(self).count(a, k) == old(self).count(a, k) + if a == address && k == kind {
                    1nat
                } else {
                    0nat
                },
    {
        let at = self.find(&address);
        let ghost before = self.records@;
        proof {
            lemma_first_where(before, address_is(address));
        }
        if at < self.records.len() {
            let mut record = self.records[at];
            record.counter.increment_entity_count(kind);
            self.records.set(at, record);
            let ghost after = self.records@;
            assert forall|a: Address, k: EntityType|
                #![trigger self.count(a, k)]
                self.count(a, k) == old(self).count(a, k) + if a == address && k == kind {
                    1nat
                } else {
                    0nat
                } by {
                lemma_first_where_same(before, after, address_is(a));
                lemma_first_where(before, address_is(a));
            }
            assert forall|i: int| 0 <= i < after.len() implies (#[trigger] after[i])
                .counter.spec_total() > 0 by {
                if i != at {
                    assert(after[i] == before[i]);
                }
            }
        } else {
            let mut counter = EntityCounter::new();
            counter.increment_entity_count(kind);
            self.records.push(AddressCount { address, counter });
            let ghost after = self.records@;
            assert(after.drop_last() =~= before);
            assert forall|a: Address, k: EntityType|
                #![trigger self.count(a, k)]
                self.count(a, k) == old(self).count(a, k) + if a == address && k == kind {
                    1nat
                } else {
                    0nat
                } by {
                lemma_first_where(before, address_is(a));
                lemma_first_where(after, address_is(a));
                if a == address {
                    lemma_first_where_is(after, address_is(a), before.len() as int);
                } else {
                    let r = first_where(before, address_is(a));
                    assert forall|j: int| 0 <= j < r implies !address_is(a)(
                        #[trigger] after[j],
                    ) by {
                        assert(after[j] == before[j]);
                    }
                    if r < before.len() {
                        assert(after[r] == before[r]);
                        lemma_first_where_is(after, address_is(a), r);
                    } else {
                        lemma_first_where_none(after, address_is(a));
                    }
                }
            }
            assert forall|i: int| 0 <= i < after.len() implies (#[trigger] after[i])
                .counter.spec_total() > 0 by {
                if i < before.len() {
                    assert(after[i] == before[i]);
                }
            }
        }
    }

    /// Counts one operation fewer that uses `address` in the role `kind`, and
    /// drops the record of the address when nothing is left of it. A count at
    /// zero stays there.
    pub fn decrement(&mut self, address: Address, kind: EntityType)
        requires
            old(self).wf(),
        ensures
            final(self).wf(),
            forall|a: Address, k: EntityType|
                #![trigger final(self).count(a, k)]
                final(self).count(a, k) == if a == address && k == kind && old(self).count(a, k)
                    > 0 {
                    (old(self).count(a, k) - 1) as nat
                } else {
                    old(self).count(a, k)
                },
    {
        let at = self.find(&address);
        let ghost before = self.records@;
        proof {
            lemma_first_where(before, address_is(address));
        }
        if at < self.records.len() {
            let mut record = self.records[at];
            record.counter.decrement_entity_count(kind);
            if record.counter.total() == 0 {
                self.records.remove(at);
                let ghost after = self.records@;
                assert forall|a: Address, k: EntityType|
                    #![trigger self.count(a, k)]
                    self.count(a, k) == if a == address && k == kind && old(self).count(a, k)
                        > 0 {
                        (old(self).count(a, k) - 1) as nat
                    } else {
                        old(self).count(a, k)
                    } by {
                    lemma_first_where(before, address_is(a));
                    let r = first_where(before, address_is(a));
                    if a == address {
                        assert forall|j: int| 0 <= j < after.len() implies !address_is(a)(
                            #[trigger] after[j],
                        ) by {
                            if j < at {
                                assert(after[j] == before[j]);
                            } else {
                                assert(after[j] == before[j + 1]);
                            }
                        }
                        lemma_first_where_none(after, address_is(a));
                    } else if r < before.len() {
                        let moved = if r < at {
                            r
                        } else {
                            r - 1
                        };
                        assert(after[moved] == before[r]);
                        assert forall|j: int| 0 <= j < moved implies !address_is(a)(
                            #[trigger] after[j],
                        ) by {
                            if j < at {
                                assert(after[j] == before[j]);
                            } else {
                                assert(after[j] == before[j + 1]);
                            }
                        }
                        lemma_first_where_is(after, address_is(a), moved);
                    } else {
                        assert forall|j: int| 0 <= j < after.len() implies !address_is(a)(
                            #[trigger] after[j],
                        ) by {
                            if j < at {
                                assert(after[j] == before[j]);
                            } else {
                                assert(after[j] == before[j + 1]);
                            }
                        }
                        lemma_first_where_none(after, address_is(a));
                    }
                }
                assert forall|i: int| 0 <= i < after.len() implies (#[trigger] after[i])
                    .counter.spec_total() > 0 by {
                    if i < at {
                        assert(after[i] == before[i]);
                    } else {
                        assert(after[i] == before[i + 1]);
                    }
                }
                assert forall|i: int, j: int| 0 <= i < j < after.len() implies after[i].address
                    != after[j].address by {
                    let oi = if i < at {
                        i
                    } else {
                        i + 1
                    };
                    let oj = if j < at {
                        j
                    } else {
                        j + 1
                    };
                    assert(after[i] == before[oi]);
                    assert(after[j] == before[oj]);
                }
            } else {
                self.records.set(at, record);
                let ghost after = self.records@;
                assert forall|a: Address, k: EntityType|
                    #![trigger self.count(a, k)]
                    self.count(a, k) == if a == address && k == kind && old(self).count(a, k)
                        > 0 {
                        (old(self).count(a, k) - 1) as nat
                    } else {
                        old(self).count(a, k)
                    } by {
                    lemma_first_where_same(before, after, address_is(a));
                    lemma_first_where(before, address_is(a));
                }
                assert forall|i: int| 0 <= i < after.len() implies (#[trigger] after[i])
                    .counter.spec_total() > 0 by {
                    if i != at {
                        assert(after[i] == before[i]);
                    }
                }
            }
        } else {
            assert(self.spec_get(address) is None);
        }
    }

    /// Counts one more operation that uses `address`, where there is one, in
    /// the role `kind`.
    pub fn add_use(&mut self, address: Option<Address>, kind: EntityType)
        requires
            old(self).wf(),
            address matches Some(a) ==> old(self).count(a, kind) < u64::MAX,
        ensures
            final(self).wf(),
            forall|a: Address, k: EntityType|
                #![trigger final(self).count(a, k)]
                final(self).count(a, k) == old(self).count(a, k) + if address == Some(a) && k
                    == kind {
                    1nat
                } else {
                    0nat
                },
    {
        match address {
            Some(a) => self.increment(a, kind),
            None => {},
        }
    }

    /// Counts one operation fewer that uses `address`, where there is one,
    /// in the role `kind`.
    pub fn drop_use(&mut self, address: Option<Address>, kind: EntityType)
        requires
            old(self).wf(),
        ensures
            final(self).wf(),
            forall|a: Address, k: EntityType|
                #![trigger final(self).count(a, k)]
                final(self).count(a, k) == if address == Some(a) && k == kind && old(self).count(
                    a,
                    k,
                ) > 0 {
                    (old(self).count(a, k) - 1) as nat
                } else {
                    old(self).count(a, k)
                },
    {
        match address {
            Some(a) => self.decrement(a, kind),
            None => {},
        }
    }

    /// Forgets every count.
    pub fn clear(&mut self)
        ensures
            final(self).wf(),
            forall|address: Address| final(self).spec_get(address) is None,
    {
        self.records.clear();
        assert(self.records@.len() == 0);
    }
}

} // verus!
