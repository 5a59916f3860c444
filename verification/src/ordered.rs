//! Pooled operations in the order in which a bundle takes them.

use crate::primitives::{Address, H256};
use crate::user_operation::{max_operation_size, PoolOperation, UserOperation, UserOperationId};
use std::cmp::Ordering;
use std::sync::Arc;
use vstd::layout::size_of;
use vstd::prelude::*;

verus! {

/// A second handle on a shared operation, from `Arc::clone`.
///
/// Trusted: the new handle points at the same operation.
#[verifier::external_body]
pub(crate) fn share_operation(po: &Arc<PoolOperation>) -> (shared: Arc<PoolOperation>)
    ensures
        shared == *po,
{
    Arc::clone(po)
}

/// The operation behind a shared handle.
pub open spec fn shared_operation(po: Arc<PoolOperation>) -> PoolOperation {
    *po
}

/// A pooled operation with the number under which it came in. A bundle takes
/// operations by fee, highest first, and among equal fees by that number,
/// lowest first.
#[derive(Debug)]
pub struct OrderedPoolOperation {
    pub po: Arc<PoolOperation>,
    pub submission_id: u64,
}

impl OrderedPoolOperation {
    /// Whether a bundle takes `self` before `other`.
    pub open spec fn precedes(self, other: OrderedPoolOperation) -> bool {
        self.po.uo.max_fee_per_gas@ > other.po.uo.max_fee_per_gas@ || (
        self.po.uo.max_fee_per_gas@ == other.po.uo.max_fee_per_gas@ && self.submission_id
            < other.submission_id)
    }

    /// The estimated size in memory: what the value takes and what the
    /// operation takes, at most `isize::MAX`.
    pub open spec fn spec_mem_size(self) -> nat {
        if size_of::<OrderedPoolOperation>() + self.po.spec_mem_size() > max_operation_size() {
            max_operation_size()
        } else {
            size_of::<OrderedPoolOperation>() + self.po.spec_mem_size()
        }
    }

    /// The operation as it was submitted.
    pub fn uo(&self) -> (uo: &UserOperation)
        ensures
            *uo == self.po.uo,
    {
        &self.po.uo
    }

    /// The estimated size in memory.
    pub fn mem_size(&self) -> (size: usize)
        ensures
            size == self.spec_mem_size(),
            size <= isize::MAX,
    {
        let total: u128 = (core::mem::size_of::<OrderedPoolOperation>() as u128) + (
        self.po.mem_size() as u128);
        if total > (isize::MAX as u128) {
            isize::MAX as usize
        } else {
            total as usize
        }
    }

    /// Whether a bundle takes `self` before `other`.
    pub fn is_before(&self, other: &OrderedPoolOperation) -> (r: bool)
        ensures
            r == self.precedes(*other),
    {
        if other.po.uo.max_fee_per_gas.lt(&self.po.uo.max_fee_per_gas) {
            true
        } else if self.po.uo.max_fee_per_gas.lt(&other.po.uo.max_fee_per_gas) {
            false
        } else {
            self.submission_id < other.submission_id
        }
    }

    /// The place of `self` relative to `other` in the order of a bundle:
    /// `Less` where `self` is taken first.
    pub fn cmp(&self, other: &OrderedPoolOperation) -> (o: Ordering)
        ensures
            match o {
                Ordering::Less => self.precedes(*other),
                Ordering::Greater => other.precedes(*self),
                Ordering::Equal => !self.precedes(*other) && !other.precedes(*self),
            },
    {
        if self.is_before(other) {
            Ordering::Less
        } else if other.is_before(self) {
            Ordering::Greater
        } else {
            Ordering::Equal
        }
    }
}

/// A pooled operation under its hash.
#[derive(Debug)]
pub struct PoolEntry {
    pub hash: H256,
    pub op: OrderedPoolOperation,
}

impl PoolEntry {
    /// The sender and nonce of the operation.
    pub open spec fn id(self) -> UserOperationId {
        self.op.po.uo.spec_id()
    }
}

/// What is noted of an operation when a block includes it.
#[derive(Clone, Copy, Debug, PartialEq, Eq, Structural)]
pub struct MinedNote {
    /// The block that included the operation.
    pub block_number: u64,
    /// The paymaster that paid what the operation cost from its confirmed
    /// balance, if one did.
    pub debited: Option<Address>,
}

/// An operation that a block included, kept in case the block is undone.
#[derive(Debug)]
pub struct MinedEntry {
    /// The block that included the operation.
    pub block_number: u64,
    /// The paymaster that paid what the operation cost from its confirmed
    /// balance, if one did.
    pub debited: Option<Address>,
    pub hash: H256,
    pub op: OrderedPoolOperation,
}

/// The property of standing under the hash `hash`.
pub open spec fn hash_is(hash: H256) -> spec_fn(PoolEntry) -> bool {
    |entry: PoolEntry| entry.hash == hash
}

/// The property of having the sender and nonce `id`.
pub open spec fn id_is(id: UserOperationId) -> spec_fn(PoolEntry) -> bool {
    |entry: PoolEntry| entry.id() == id
}

/// The property of being taken after `op`.
pub open spec fn follows(op: OrderedPoolOperation) -> spec_fn(PoolEntry) -> bool {
    |entry: PoolEntry| op.precedes(entry.op)
}

/// The property of being kept under the hash `hash`.
pub open spec fn mined_hash_is(hash: H256) -> spec_fn(MinedEntry) -> bool {
    |entry: MinedEntry| entry.hash == hash
}

/// The size counted for a pooled operation.
pub open spec fn entry_size() -> spec_fn(PoolEntry) -> nat {
    |entry: PoolEntry| entry.op.spec_mem_size()
}

/// The size counted for an operation kept after it was mined.
pub open spec fn mined_size() -> spec_fn(MinedEntry) -> nat {
    |entry: MinedEntry| entry.op.spec_mem_size()
}

} // verus!
