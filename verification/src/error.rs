//! Why the pool refuses an operation.

use crate::entity::Entity;
use crate::primitives::{Address, U256};
use vstd::prelude::*;

verus! {

/// A limit of the machine that the pool ran into.
#[derive(Clone, Copy, Debug, PartialEq, Eq, Structural)]
pub enum OtherError {
    /// Every submission id has been handed out.
    SubmissionIdsExhausted,
}

/// Why the pool refuses an operation.
#[derive(Clone, Copy, Debug, PartialEq, Eq, Structural)]
pub enum MempoolError {
    /// An operation with the same hash is in the pool already.
    OperationAlreadyKnown,
    /// An operation with the same sender and nonce is in the pool, and the
    /// fees offered do not outbid it. Holds the priority fee and the fee of
    /// the operation in the pool.
    ReplacementUnderpriced(U256, U256),
    /// The operation was the worst of a full pool and left it at once.
    DiscardedOnInsert,
    /// The paymaster cannot cover the operation besides those it backs
    /// already.
    PaymasterBalanceTooLow,
    /// The sender is a factory, paymaster or aggregator of a pooled operation.
    SenderAddressUsedAsAlternateEntity(Address),
    /// An entity of the operation is the sender of a pooled operation.
    MultipleRolesViolation(Entity),
    /// The operation touches storage of an address that sends a pooled
    /// operation and that is an entity of this one.
    AssociatedStorageIsAlternateSender,
    /// No pool serves the entry point.
    UnknownEntryPoint(Address),
    /// None of the above.
    Other(OtherError),
}

} // verus!
