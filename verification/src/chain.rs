//! What the chain reports to the pool.

use crate::primitives::{Address, H256, U256};
use crate::user_operation::UserOperationId;
use vstd::prelude::*;

verus! {

/// An operation that a block included.
#[derive(Clone, Copy, Debug, PartialEq, Eq, Structural)]
pub struct MinedOp {
    pub hash: H256,
    pub entry_point: Address,
    pub sender: Address,
    pub nonce: U256,
    pub actual_gas_cost: U256,
    pub paymaster: Option<Address>,
}

impl MinedOp {
    /// The sender and nonce of the operation.
    pub open spec fn spec_id(self) -> UserOperationId {
        UserOperationId { sender: self.sender, nonce: self.nonce }
    }

    /// The sender and nonce of the operation.
    pub fn id(&self) -> (id: UserOperationId)
        ensures
            id == self.spec_id(),
    {
        UserOperationId { sender: self.sender, nonce: self.nonce }
    }
}

/// A deposit to, or a withdrawal from, the balance that an address holds at
/// the entry point.
#[derive(Clone, Copy, Debug, PartialEq, Eq, Structural)]
pub struct BalanceUpdate {
    pub address: Address,
    pub entry_point: Address,
    pub amount: U256,
    pub is_addition: bool,
}

} // verus!
