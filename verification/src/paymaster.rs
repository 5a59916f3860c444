//! The ledger of paymaster balances: for each paymaster what the chain has
//! confirmed and what pooled operations may still draw.

use crate::chain::MinedOp;
use crate::error::MempoolError;
use crate::primitives::{
    lemma_saturating_values, spec_saturating_add, spec_saturating_sub, u256_checked_add, Address,
    U256,
};
use crate::search::{
    first_where, lemma_first_where, lemma_first_where_is, lemma_first_where_none,
    lemma_first_where_same,
};
use crate::sums::{lemma_sum_push, lemma_sum_remove, lemma_sum_zero, sum_of};
use crate::user_operation::{PoolOperation, UserOperationId};
use vstd::prelude::*;

verus! {

/// What a caller knows of a paymaster when it hands an operation in.
#[derive(Clone, Copy, Debug, PartialEq, Eq, Structural)]
pub struct PaymasterMetadata {
    pub address: Address,
    /// The balance that the chain has confirmed.
    pub confirmed_balance: U256,
    /// What is left of it after the pending debits.
    pub pending_balance: U256,
}

/// The account kept for one paymaster.
#[derive(Clone, Copy, Debug, PartialEq, Eq, Structural)]
pub struct PaymasterBalance {
    pub address: Address,
    /// The balance that the chain has confirmed.
    pub confirmed: U256,
    /// The sum of what the pooled operations of the paymaster may cost.
    pub pending: U256,
}

impl PaymasterBalance {
    /// What the paymaster can still back: confirmed less pending, or zero.
    pub open spec fn available(self) -> U256 {
        spec_saturating_sub(self.confirmed, self.pending)
    }
}

/// What one pooled operation has reserved, and with which paymaster.
#[derive(Clone, Copy, Debug, PartialEq, Eq, Structural)]
pub struct UserOpFee {
    pub id: UserOperationId,
    pub paymaster: Address,
    pub cost: U256,
}

/// The property of being the account of `address`.
pub open spec fn balance_of(address: Address) -> spec_fn(PaymasterBalance) -> bool {
    |balance: PaymasterBalance| balance.address == address
}

/// The property of being the reservation of the operation `id`.
pub open spec fn fee_of(id: UserOperationId) -> spec_fn(UserOpFee) -> bool {
    |fee: UserOpFee| fee.id == id
}

/// What a reservation takes from `paymaster`: its cost where it is made with
/// that paymaster, else nothing.
pub open spec fn cost_for(paymaster: Address) -> spec_fn(UserOpFee) -> nat {
    |fee: UserOpFee|
        if fee.paymaster == paymaster {
            fee.cost@
        } else {
            0
        }
}

/// The ledger as a mathematical value.
pub struct PaymasterView {
    /// Whether reservations are made at all.
    pub enabled: bool,
    /// The accounts, in the order in which the paymasters became known.
    pub balances: Seq<PaymasterBalance>,
    /// The reservations, in the order in which they were made.
    pub fees: Seq<UserOpFee>,
}

impl PaymasterView {
    /// Where the account of `address` stands; the number of accounts where
    /// there is none.
    pub open spec fn balance_index(self, address: Address) -> int {
        first_where(self.balances, balance_of(address))
    }

    /// Where the reservation of `id` stands; the number of reservations
    /// where there is none.
    pub open spec fn fee_index(self, id: UserOperationId) -> int {
        first_where(self.fees, fee_of(id))
    }

    /// The paymaster with which the operation `id` has its reservation, if
    /// it has one.
    pub open spec fn reserved_with(self, id: UserOperationId) -> Option<Address> {
        if self.fee_index(id) < self.fees.len() {
            Some(self.fees[self.fee_index(id)].paymaster)
        } else {
            None
        }
    }

    /// Whether `address` has an account.
    pub open spec fn knows(self, address: Address) -> bool {
        self.balance_index(address) < self.balances.len()
    }

    /// No paymaster has two accounts, no operation two reservations, every
    /// reservation is made with a paymaster that has an account, and the
    /// pending debit of each account is the sum of the reservations made
    /// with it.
    pub open spec fn wf(self) -> bool {
        &&& forall|i: int, j: int|
            0 <= i < j < self.balances.len() ==> self.balances[i].address
                != self.balances[j].address
        &&& forall|i: int, j: int|
            0 <= i < j < self.fees.len() ==> self.fees[i].id != self.fees[j].id
        &&& forall|i: int|
            0 <= i < self.fees.len() ==> self.knows((#[trigger] self.fees[i]).paymaster)
        &&& forall|i: int|
            0 <= i < self.balances.len() ==> (#[trigger] self.balances[i]).pending@ == sum_of(
                self.fees,
                cost_for(self.balances[i].address),
            )
    }

    /// The ledger with no account and no reservation.
    pub open spec fn empty(enabled: bool) -> PaymasterView {
        PaymasterView { enabled, balances: Seq::empty(), fees: Seq::empty() }
    }

    /// The accounts after `fee` has been given back to its paymaster.
    pub open spec fn balances_without(self, fee: UserOpFee) -> Seq<PaymasterBalance> {
        let at = self.balance_index(fee.paymaster);
        if at < self.balances.len() {
            self.balances.update(
                at,
                PaymasterBalance {
                    pending: spec_saturating_sub(self.balances[at].pending, fee.cost),
                    ..self.balances[at]
                },
            )
        } else {
            self.balances
        }
    }

    /// The ledger after the reservation of `id`, if there is one, has been
    /// given back.
    pub open spec fn release(self, id: UserOperationId) -> PaymasterView {
        let at = self.fee_index(id);
        if at < self.fees.len() {
            PaymasterView {
                balances: self.balances_without(self.fees[at]),
                fees: self.fees.remove(at),
                ..self
            }
        } else {
            self
        }
    }

    /// The account that a reservation with `meta.address` is held against:
    /// the one in the ledger, or a fresh one with the balance that `meta`
    /// reports.
    pub open spec fn account_for(self, meta: PaymasterMetadata) -> PaymasterBalance {
        let at = self.balance_index(meta.address);
        if at < self.balances.len() {
            self.balances[at]
        } else {
            PaymasterBalance {
                address: meta.address,
                confirmed: meta.confirmed_balance,
                pending: U256 { w3: 0, w2: 0, w1: 0, w0: 0 },
            }
        }
    }

    /// Whether the paymaster of `meta` can back `cost` more.
    pub open spec fn can_hold(self, cost: U256, meta: PaymasterMetadata) -> bool {
        self.account_for(meta).pending@ + cost@ <= self.account_for(meta).confirmed@
    }

    /// The ledger after `cost` was held against the paymaster of `meta` for
    /// the operation `id`, where the paymaster can back it; the ledger as
    /// it is where the paymaster cannot.
    pub open spec fn hold(self, id: UserOperationId, cost: U256, meta: PaymasterMetadata)
        -> PaymasterView {
        if !self.can_hold(cost, meta) {
            self
        } else {
            let at = self.balance_index(meta.address);
            let account = self.account_for(meta);
            let updated = PaymasterBalance {
                pending: spec_saturating_add(account.pending, cost),
                ..account
            };
            PaymasterView {
                balances: if at < self.balances.len() {
                    self.balances.update(at, updated)
                } else {
                    self.balances.push(updated)
                },
                fees: self.fees.push(UserOpFee { id, paymaster: meta.address, cost }),
                ..self
            }
        }
    }

    /// Whether the paymaster of `meta` can back `cost` more, once an earlier
    /// reservation of `id` has been given back. A ledger that is switched
    /// off backs everything.
    pub open spec fn can_reserve(self, id: UserOperationId, cost: U256, meta: PaymasterMetadata)
        -> bool {
        !self.enabled || self.release(id).can_hold(cost, meta)
    }

    /// The ledger after `cost` has been asked of the paymaster of `meta` for
    /// the operation `id`. An earlier reservation of `id` is given back
    /// first; the new one is made where the paymaster can back it. A ledger
    /// that is switched off stays as it is.
    pub open spec fn reserve(self, id: UserOperationId, cost: U256, meta: PaymasterMetadata)
        -> PaymasterView {
        if !self.enabled {
            self
        } else {
            self.release(id).hold(id, cost, meta)
        }
    }

    /// The ledger after the operation `id` was mined at `actual_cost`: its
    /// paymaster pays the cost from the confirmed balance, and the
    /// reservation is given back.
    pub open spec fn settle(self, id: UserOperationId, actual_cost: U256) -> PaymasterView {
        let at = self.fee_index(id);
        if at < self.fees.len() {
            let released = self.release(id);
            released.credit(self.fees[at].paymaster, actual_cost, false)
        } else {
            self
        }
    }

    /// The ledger after the confirmed balance of `address` went up
    /// (`is_addition`) or down by `amount`, capped at the ends of the range.
    /// An address without an account changes nothing.
    pub open spec fn credit(self, address: Address, amount: U256, is_addition: bool)
        -> PaymasterView {
        let at = self.balance_index(address);
        if at < self.balances.len() {
            PaymasterView {
                balances: self.balances.update(
                    at,
                    PaymasterBalance {
                        confirmed: if is_addition {
                            spec_saturating_add(self.balances[at].confirmed, amount)
                        } else {
                            spec_saturating_sub(self.balances[at].confirmed, amount)
                        },
                        ..self.balances[at]
                    },
                ),
                ..self
            }
        } else {
            self
        }
    }

    /// The ledger after the confirmed balance of `address` was set.
    pub open spec fn confirm(self, address: Address, balance: U256) -> PaymasterView {
        let at = self.balance_index(address);
        if at < self.balances.len() {
            PaymasterView {
                balances: self.balances.update(
                    at,
                    PaymasterBalance { confirmed: balance, ..self.balances[at] },
                ),
                ..self
            }
        } else {
            self
        }
    }

    /// The ledger after the confirmed balances of the first `count`
    /// addresses were set, each to the balance at the same place.
    pub open spec fn confirm_all(self, addresses: Seq<Address>, balances: Seq<U256>, count: nat)
        -> PaymasterView
        decreases count,
    {
        if count == 0 {
            self
        } else {
            self.confirm_all(addresses, balances, (count - 1) as nat).confirm(
                addresses[count - 1],
                balances[count - 1],
            )
        }
    }

    /// What the ledger tells of a paymaster; nothing where it is switched off
    /// or the paymaster has no account.
    pub open spec fn metadata(self, address: Address) -> Option<PaymasterMetadata> {
        if self.enabled && self.knows(address) {
            let account = self.balances[self.balance_index(address)];
            Some(
                PaymasterMetadata {
                    address,
                    confirmed_balance: account.confirmed,
                    pending_balance: account.available(),
                },
            )
        } else {
            None
        }
    }

    /// Changing what is confirmed or pending of one account leaves every
    /// account where it is.
    pub proof fn lemma_update_keeps_indexes(
        self,
        at: int,
        updated: PaymasterBalance,
        address: Address,
    )
        requires
            0 <= at < self.balances.len(),
            updated.address == self.balances[at].address,
        ensures
            first_where(self.balances.update(at, updated), balance_of(address))
                == self.balance_index(address),
    {
        lemma_first_where_same(
            self.balances,
            self.balances.update(at, updated),
            balance_of(address),
        );
    }

    /// A well-formed ledger stays so when a confirmed balance changes.
    pub proof fn lemma_confirm_wf(self, address: Address, balance: U256)
        requires
            self.wf(),
        ensures
            self.confirm(address, balance).wf(),
            self.confirm(address, balance).fees == self.fees,
            self.confirm(address, balance).enabled == self.enabled,
    {
        let at = self.balance_index(address);
        lemma_first_where(self.balances, balance_of(address));
        if at < self.balances.len() {
            let updated = PaymasterBalance { confirmed: balance, ..self.balances[at] };
            let after = self.confirm(address, balance);
            assert forall|i: int| 0 <= i < after.fees.len() implies after.knows(
                (#[trigger] after.fees[i]).paymaster,
            ) by {
                assert(self.knows(self.fees[i].paymaster));
                self.lemma_update_keeps_indexes(at, updated, self.fees[i].paymaster);
            }
            assert forall|i: int| 0 <= i < after.balances.len() implies (
            #[trigger] after.balances[i]).pending@ == sum_of(
                after.fees,
                cost_for(after.balances[i].address),
            ) by {
                assert(self.balances[i].pending@ == sum_of(
                    self.fees,
                    cost_for(self.balances[i].address),
                ));
            }
        }
    }

    /// A well-formed ledger stays so when a confirmed balance goes up or
    /// down.
    pub proof fn lemma_credit_wf(self, address: Address, amount: U256, is_addition: bool)
        requires
            self.wf(),
        ensures
            self.credit(address, amount, is_addition).wf(),
            self.credit(address, amount, is_addition).fees == self.fees,
            self.credit(address, amount, is_addition).enabled == self.enabled,
    {
        let at = self.balance_index(address);
        lemma_first_where(self.balances, balance_of(address));
        if at < self.balances.len() {
            let confirmed = if is_addition {
                spec_saturating_add(self.balances[at].confirmed, amount)
            } else {
                spec_saturating_sub(self.balances[at].confirmed, amount)
            };
            assert(self.credit(address, amount, is_addition) == self.confirm(address, confirmed));
            self.lemma_confirm_wf(address, confirmed);
        }
    }

    /// A well-formed ledger stays so when balances are set one after the
    /// other.
    pub proof fn lemma_confirm_all_wf(
        self,
        addresses: Seq<Address>,
        balances: Seq<U256>,
        count: nat,
    )
        requires
            self.wf(),
        ensures
            self.confirm_all(addresses, balances, count).wf(),
            self.confirm_all(addresses, balances, count).fees == self.fees,
            self.confirm_all(addresses, balances, count).enabled == self.enabled,
        decreases count,
    {
        if count > 0 {
            self.lemma_confirm_all_wf(addresses, balances, (count - 1) as nat);
            self.confirm_all(addresses, balances, (count - 1) as nat).lemma_confirm_wf(
                addresses[count - 1],
                balances[count - 1],
            );
        }
    }

    /// A well-formed ledger stays so when a reservation is given back, and
    /// the operation has no reservation afterwards.
    pub proof fn lemma_release_wf(self, id: UserOperationId)
        requires
            self.wf(),
        ensures
            self.release(id).wf(),
            self.release(id).fee_index(id) == self.release(id).fees.len(),
            self.release(id).enabled == self.enabled,
            self.release(id).balances.len() == self.balances.len(),
            forall|i: int|
                0 <= i < self.balances.len() ==> (#[trigger] self.release(id).balances[i]).address
                    == self.balances[i].address,
            forall|i: int|
                0 <= i < self.balances.len() ==> (#[trigger] self.release(
                    id,
                ).balances[i]).confirmed == self.balances[i].confirmed,
    {
        let at = self.fee_index(id);
        lemma_first_where(self.fees, fee_of(id));
        let after = self.release(id);
        if at < self.fees.len() {
            let fee = self.fees[at];
            let account_at = self.balance_index(fee.paymaster);
            lemma_first_where(self.balances, balance_of(fee.paymaster));
            assert(self.knows(fee.paymaster));
            let account = self.balances[account_at];
            let updated = PaymasterBalance {
                pending: spec_saturating_sub(account.pending, fee.cost),
                ..account
            };
            assert(after.balances == self.balances.update(account_at, updated));
            assert forall|j: int| 0 <= j < after.fees.len() implies !fee_of(id)(
                #[trigger] after.fees[j],
            ) by {
                if j < at {
                    assert(after.fees[j] == self.fees[j]);
                } else {
                    assert(after.fees[j] == self.fees[j + 1]);
                }
            }
            lemma_first_where_none(after.fees, fee_of(id));
            assert forall|i: int, j: int| 0 <= i < j < after.fees.len() implies after.fees[i].id
                != after.fees[j].id by {
                let oi = if i < at {
                    i
                } else {
                    i + 1
                };
                let oj = if j < at {
                    j
                } else {
                    j + 1
                };
                assert(after.fees[i] == self.fees[oi]);
                assert(after.fees[j] == self.fees[oj]);
            }
            assert forall|i: int| 0 <= i < after.fees.len() implies after.knows(
                (#[trigger] after.fees[i]).paymaster,
            ) by {
                let oi = if i < at {
                    i
                } else {
                    i + 1
                };
                assert(after.fees[i] == self.fees[oi]);
                assert(self.knows(self.fees[oi].paymaster));
                self.lemma_update_keeps_indexes(account_at, updated, self.fees[oi].paymaster);
            }
            assert forall|i: int| 0 <= i < after.balances.len() implies (
            #[trigger] after.balances[i]).pending@ == sum_of(
                after.fees,
                cost_for(after.balances[i].address),
            ) by {
                let address = self.balances[i].address;
                assert(self.balances[i].pending@ == sum_of(self.fees, cost_for(address)));
                lemma_sum_remove(self.fees, at, cost_for(address));
                if i == account_at {
                    lemma_saturating_values(account.pending, fee.cost);
                } else {
                    assert(self.balances[i].address != self.balances[account_at].address);
                }
            }
        }
    }

    /// A well-formed ledger stays so when a reservation is asked for, and
    /// the reservation is made exactly where the paymaster can back it.
    pub proof fn lemma_reserve_wf(self, id: UserOperationId, cost: U256, meta: PaymasterMetadata)
        requires
            self.wf(),
        ensures
            self.reserve(id, cost, meta).wf(),
            self.reserve(id, cost, meta).enabled == self.enabled,
    {
        if self.enabled {
            let base = self.release(id);
            self.lemma_release_wf(id);
            let at = base.balance_index(meta.address);
            lemma_first_where(base.balances, balance_of(meta.address));
            let account = base.account_for(meta);
            if base.can_hold(cost, meta) {
                let updated = PaymasterBalance {
                    pending: spec_saturating_add(account.pending, cost),
                    ..account
                };
                let fee = UserOpFee { id, paymaster: meta.address, cost };
                let after = self.reserve(id, cost, meta);
                account.confirmed.lemma_view_bounds();
                lemma_saturating_values(account.pending, cost);
                lemma_first_where(base.fees, fee_of(id));
                assert forall|i: int, j: int| 0 <= i < j < after.fees.len() implies after.fees[i].id
                    != after.fees[j].id by {
                    if j == base.fees.len() {
                        assert(!fee_of(id)(base.fees[i]));
                    }
                }
                assert forall|i: int, j: int|
                    0 <= i < j < after.balances.len() implies after.balances[i].address
                    != after.balances[j].address by {
                    if at >= base.balances.len() && j == base.balances.len() {
                        assert(!balance_of(meta.address)(base.balances[i]));
                    }
                }
                assert forall|i: int| 0 <= i < after.fees.len() implies after.knows(
                    (#[trigger] after.fees[i]).paymaster,
                ) by {
                    let paymaster = after.fees[i].paymaster;
                    if at < base.balances.len() {
                        base.lemma_update_keeps_indexes(at, updated, paymaster);
                        if i < base.fees.len() {
                            assert(base.knows(base.fees[i].paymaster));
                        }
                    } else {
                        assert(after.balances.drop_last() =~= base.balances);
                        if i < base.fees.len() {
                            assert(base.knows(base.fees[i].paymaster));
                        } else {
                            lemma_first_where_is(
                                after.balances,
                                balance_of(paymaster),
                                base.balances.len() as int,
                            );
                        }
                    }
                }
                assert forall|i: int| 0 <= i < after.balances.len() implies (
                #[trigger] after.balances[i]).pending@ == sum_of(
                    after.fees,
                    cost_for(after.balances[i].address),
                ) by {
                    let address = after.balances[i].address;
                    lemma_sum_push(base.fees, fee, cost_for(address));
                    if i < base.balances.len() {
                        assert(base.balances[i].pending@ == sum_of(
                            base.fees,
                            cost_for(base.balances[i].address),
                        ));
                        if i != at && at < base.balances.len() {
                            assert(base.balances[i].address != base.balances[at].address);
                        }
                        if at >= base.balances.len() {
                            assert(!balance_of(meta.address)(base.balances[i]));
                        }
                    } else {
                        assert forall|j: int| 0 <= j < base.fees.len() implies cost_for(address)(
                            #[trigger] base.fees[j],
                        ) == 0 by {
                            assert(base.knows(base.fees[j].paymaster));
                        }
                        lemma_sum_zero(base.fees, cost_for(address));
                    }
                }
            }
        }
    }

    /// A well-formed ledger stays so when a mined operation is settled.
    pub proof fn lemma_settle_wf(self, id: UserOperationId, actual_cost: U256)
        requires
            self.wf(),
        ensures
            self.settle(id, actual_cost).wf(),
            self.settle(id, actual_cost).fees == self.release(id).fees,
    {
        let at = self.fee_index(id);
        if at < self.fees.len() {
            self.lemma_release_wf(id);
            self.release(id).lemma_credit_wf(self.fees[at].paymaster, actual_cost, false);
        }
    }
}

/// The ledger of paymaster balances.
#[derive(Debug)]
pub struct PaymasterTracker {
    enabled: bool,
    balances: Vec<PaymasterBalance>,
    fees: Vec<UserOpFee>,
}

impl View for PaymasterTracker {
    type V = PaymasterView;

    closed spec fn view(&self) -> PaymasterView {
        PaymasterView { enabled: self.enabled, balances: self.balances@, fees: self.fees@ }
    }
}

impl PaymasterTracker {
    /// A ledger with no account and no reservation.
    pub fn new(enabled: bool) -> (tracker: PaymasterTracker)
        ensures
            tracker@ == PaymasterView::empty(enabled),
            tracker@.wf(),
    {
        PaymasterTracker { enabled, balances: Vec::new(), fees: Vec::new() }
    }

    /// Switches the making of reservations on or off.
    pub fn set_paymaster_tracker(&mut self, enabled: bool)
        ensures
            final(self)@ == (PaymasterView { enabled, ..old(self)@ }),
            old(self)@.wf() ==> final(self)@.wf(),
    {
        self.enabled = enabled;
    }

    /// Forgets every account and every reservation.
    pub fn clear(&mut self)
        ensures
            final(self)@ == PaymasterView::empty(old(self)@.enabled),
            final(self)@.wf(),
    {
        self.balances.clear();
        self.fees.clear();
    }

    fn find_balance(&self, address: &Address) -> (at: usize)
        ensures
            at == self@.balance_index(*address),
            at <= self@.balances.len(),
    {
        let mut at: usize = 0;
        while at < self.balances.len()
            invariant
                at <= self.balances@.len(),
                forall|j: int| 0 <= j < at ==> self.balances@[j].address != *address,
            decreases self.balances@.len() - at,
        {
            if self.balances[at].address == *address {
                proof {
                    lemma_first_where_is(self.balances@, balance_of(*address), at as int);
                }
                return at;
            }
            at += 1;
        }
        proof {
            lemma_first_where_none(self.balances@, balance_of(*address));
        }
        at
    }

    fn find_fee(&self, id: &UserOperationId) -> (at: usize)
        ensures
            at == self@.fee_index(*id),
            at <= self@.fees.len(),
    {
        let mut at: usize = 0;
        while at < self.fees.len()
            invariant
                at <= self.fees@.len(),
                forall|j: int| 0 <= j < at ==> self.fees@[j].id != *id,
            decreases self.fees@.len() - at,
        {
            if self.fees[at].id == *id {
                proof {
                    lemma_first_where_is(self.fees@, fee_of(*id), at as int);
                }
                return at;
            }
            at += 1;
        }
        proof {
            lemma_first_where_none(self.fees@, fee_of(*id));
        }
        at
    }

    /// The paymaster with which the operation `id` has its reservation, if
    /// it has one.
    pub fn reserved_with(&self, id: &UserOperationId) -> (paymaster: Option<Address>)
        ensures
            paymaster == self@.reserved_with(*id),
    {
        let at = self.find_fee(id);
        if at < self.fees.len() {
            Some(self.fees[at].paymaster)
        } else {
            None
        }
    }

    /// Whether the ledger is switched on and has an account for `paymaster`.
    pub fn paymaster_exists(&self, paymaster: Address) -> (r: bool)
        ensures
            r == (self@.enabled && self@.knows(paymaster)),
    {
        self.enabled && self.find_balance(&paymaster) < self.balances.len()
    }

    /// What the ledger tells of a paymaster.
    pub fn paymaster_metadata(&self, paymaster: Address) -> (meta: Option<PaymasterMetadata>)
        ensures
            meta == self@.metadata(paymaster),
    {
        if !self.enabled {
            return None;
        }
        let at = self.find_balance(&paymaster);
        if at < self.balances.len() {
            let account = self.balances[at];
            Some(
                PaymasterMetadata {
                    address: paymaster,
                    confirmed_balance: account.confirmed,
                    pending_balance: account.confirmed.saturating_sub(account.pending),
                },
            )
        } else {
            None
        }
    }

    /// The paymasters that have an account, in the order in which they
    /// became known.
    pub fn paymaster_addresses(&self) -> (addresses: Vec<Address>)
        ensures
            addresses@ == self@.balances.map_values(|b: PaymasterBalance| b.address),
    {
        let mut addresses: Vec<Address> = Vec::new();
        let mut i: usize = 0;
        while i < self.balances.len()
            invariant
                i <= self.balances@.len(),
                addresses@ == self.balances@.subrange(0, i as int).map_values(
                    |b: PaymasterBalance| b.address,
                ),
            decreases self.balances@.len() - i,
        {
            addresses.push(self.balances[i].address);
            i += 1;
            assert(addresses@ =~= self.balances@.subrange(0, i as int).map_values(
                |b: PaymasterBalance| b.address,
            ));
        }
        assert(self.balances@.subrange(0, i as int) =~= self.balances@);
        addresses
    }

    /// Sets the confirmed balance of each address to the balance at the same
    /// place. An address without an account changes nothing.
    pub fn set_confirmed_balances(&mut self, addresses: &Vec<Address>, balances: &Vec<U256>)
        requires
            addresses@.len() == balances@.len(),
        ensures
            final(self)@ == old(self)@.confirm_all(addresses@, balances@, addresses@.len()),
            old(self)@.wf() ==> final(self)@.wf(),
    {
        proof {
            if self@.wf() {
                self@.lemma_confirm_all_wf(addresses@, balances@, addresses@.len());
            }
        }
        let mut i: usize = 0;
        while i < addresses.len()
            invariant
                i <= addresses@.len() == balances@.len(),
                self@ == old(self)@.confirm_all(addresses@, balances@, i as nat),
            decreases addresses@.len() - i,
        {
            let at = self.find_balance(&addresses[i]);
            if at < self.balances.len() {
                let mut account = self.balances[at];
                account.confirmed = balances[i];
                self.balances.set(at, account);
            }
            i += 1;
        }
    }

    /// Gives the reservation of the operation `id` back, if it has one.
    pub fn remove_operation(&mut self, id: &UserOperationId)
        ensures
            final(self)@ == old(self)@.release(*id),
            old(self)@.wf() ==> final(self)@.wf(),
    {
        proof {
            if self@.wf() {
                self@.lemma_release_wf(*id);
            }
        }
        let at = self.find_fee(id);
        if at < self.fees.len() {
            let fee = self.fees.remove(at);
            let account_at = self.find_balance(&fee.paymaster);
            if account_at < self.balances.len() {
                let mut account = self.balances[account_at];
                account.pending = account.pending.saturating_sub(fee.cost);
                self.balances.set(account_at, account);
            }
        }
    }

    /// Holds `cost` against the paymaster of `meta` for the operation `id`,
    /// where the paymaster can back it.
    fn hold(&mut self, id: UserOperationId, cost: U256, meta: &PaymasterMetadata) -> (held: bool)
        ensures
            final(self)@ == old(self)@.hold(id, cost, *meta),
            held == old(self)@.can_hold(cost, *meta),
    {
        let at = self.find_balance(&meta.address);
        let account = if at < self.balances.len() {
            self.balances[at]
        } else {
            PaymasterBalance {
                address: meta.address,
                confirmed: meta.confirmed_balance,
                pending: U256::zero(),
            }
        };
        proof {
            account.confirmed.lemma_view_bounds();
        }
        match u256_checked_add(account.pending, cost) {
            None => false,
            Some(pending) => {
                if account.confirmed.lt(&pending) {
                    false
                } else {
                    proof {
                        lemma_saturating_values(account.pending, cost);
                        pending.lemma_view_injective(spec_saturating_add(account.pending, cost));
                    }
                    let updated = PaymasterBalance { pending, ..account };
                    if at < self.balances.len() {
                        self.balances.set(at, updated);
                    } else {
                        self.balances.push(updated);
                    }
                    self.fees.push(UserOpFee { id, paymaster: meta.address, cost });
                    true
                }
            },
        }
    }

    /// Asks the paymaster of `meta` to back what `po` may cost. An earlier
    /// reservation of the same operation is given back first. Fails where
    /// the paymaster cannot back the cost besides what it backs already;
    /// never where the ledger is switched off.
    pub fn add_or_update_balance(&mut self, po: &PoolOperation, meta: &PaymasterMetadata) -> (result:
        Result<(), MempoolError>)
        ensures
            final(self)@ == old(self)@.reserve(po.uo.spec_id(), po.uo.spec_max_gas_cost(), *meta),
            old(self)@.wf() ==> final(self)@.wf(),
            result == if old(self)@.can_reserve(
                po.uo.spec_id(),
                po.uo.spec_max_gas_cost(),
                *meta,
            ) {
                Ok::<(), MempoolError>(())
            } else {
                Err::<(), MempoolError>(MempoolError::PaymasterBalanceTooLow)
            },
    {
        proof {
            if self@.wf() {
                self@.lemma_reserve_wf(po.uo.spec_id(), po.uo.spec_max_gas_cost(), *meta);
            }
        }
        if !self.enabled {
            return Ok(());
        }
        let id = po.uo.id();
        let cost = po.uo.max_gas_cost();
        self.remove_operation(&id);
        if self.hold(id, cost, meta) {
            Ok(())
        } else {
            Err(MempoolError::PaymasterBalanceTooLow)
        }
    }

    /// Settles an operation that a block included: its paymaster pays the
    /// actual cost from the confirmed balance, and the reservation of the
    /// operation is given back.
    pub fn update_paymaster_balance_from_mined_op(&mut self, mined_op: &MinedOp)
        ensures
            final(self)@ == old(self)@.settle(mined_op.spec_id(), mined_op.actual_gas_cost),
            old(self)@.wf() ==> final(self)@.wf(),
    {
        proof {
            if self@.wf() {
                self@.lemma_settle_wf(mined_op.spec_id(), mined_op.actual_gas_cost);
            }
        }
        let id = mined_op.id();
        let at = self.find_fee(&id);
        if at < self.fees.len() {
            let paymaster = self.fees[at].paymaster;
            self.remove_operation(&id);
            self.update_paymaster_balance_from_event(paymaster, mined_op.actual_gas_cost, false);
        }
    }

    /// Takes note of a deposit (`is_addition`) or a withdrawal of a
    /// paymaster.
    pub fn update_paymaster_balance_from_event(
        &mut self,
        paymaster: Address,
        amount: U256,
        is_addition: bool,
    )
        ensures
            final(self)@ == old(self)@.credit(paymaster, amount, is_addition),
            old(self)@.wf() ==> final(self)@.wf(),
    {
        proof {
            if self@.wf() {
                self@.lemma_credit_wf(paymaster, amount, is_addition);
            }
        }
        let at = self.find_balance(&paymaster);
        if at < self.balances.len() {
            let mut account = self.balances[at];
            account.confirmed = if is_addition {
                account.confirmed.saturating_add(amount)
            } else {
                account.confirmed.saturating_sub(amount)
            };
            self.balances.set(at, account);
        }
    }

    /// Gives a paymaster back what a mined operation had cost it, when the
    /// block of the operation is no longer part of the chain.
    pub fn unmine_actual_cost(&mut self, paymaster: &Address, actual_cost: U256)
        ensures
            final(self)@ == old(self)@.credit(*paymaster, actual_cost, true),
            old(self)@.wf() ==> final(self)@.wf(),
    {
        self.update_paymaster_balance_from_event(*paymaster, actual_cost, true);
    }
}

} // verus!
