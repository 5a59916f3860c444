//! Entities of a user operation and the counters kept for them.

use crate::primitives::Address;
use vstd::prelude::*;

verus! {

/// The role in which an address takes part in a user operation.
#[derive(Clone, Copy, Debug, PartialEq, Eq, Structural, Hash)]
pub enum EntityType {
    /// The sender of the operation.
    Account,
    /// The paymaster that sponsors it.
    Paymaster,
    /// The signature aggregator.
    Aggregator,
    /// The factory that deploys the sender.
    Factory,
}

/// An address in one role.
#[derive(Clone, Copy, Debug, PartialEq, Eq, Structural, Hash)]
pub struct Entity {
    pub kind: EntityType,
    pub address: Address,
}

impl Entity {
    pub fn new(kind: EntityType, address: Address) -> (e: Entity)
        ensures
            e == (Entity { kind, address }),
    {
        Entity { kind, address }
    }

    pub fn account(address: Address) -> (e: Entity)
        ensures
            e == (Entity { kind: EntityType::Account, address }),
    {
        Entity { kind: EntityType::Account, address }
    }

    pub fn paymaster(address: Address) -> (e: Entity)
        ensures
            e == (Entity { kind: EntityType::Paymaster, address }),
    {
        Entity { kind: EntityType::Paymaster, address }
    }

    pub fn aggregator(address: Address) -> (e: Entity)
        ensures
            e == (Entity { kind: EntityType::Aggregator, address }),
    {
        Entity { kind: EntityType::Aggregator, address }
    }

    pub fn factory(address: Address) -> (e: Entity)
        ensures
            e == (Entity { kind: EntityType::Factory, address }),
    {
        Entity { kind: EntityType::Factory, address }
    }
}

/// What simulation found out about one entity of an operation.
#[derive(Clone, Copy, Debug, PartialEq, Eq, Structural, Default)]
pub struct EntityInfo {
    pub address: Address,
    pub is_staked: bool,
}

/// What simulation found out about each entity of an operation.
#[derive(Clone, Copy, Debug, PartialEq, Eq, Default)]
pub struct EntityInfos {
    pub factory: Option<EntityInfo>,
    pub sender: EntityInfo,
    pub paymaster: Option<EntityInfo>,
    pub aggregator: Option<EntityInfo>,
}

impl EntityInfos {
    /// The record of the entity in the given role, if the operation has one.
    pub open spec fn spec_get(self, kind: EntityType) -> Option<EntityInfo> {
        match kind {
            EntityType::Account => Some(self.sender),
            EntityType::Paymaster => self.paymaster,
            EntityType::Aggregator => self.aggregator,
            EntityType::Factory => self.factory,
        }
    }

    /// The record of the entity in the given role, if the operation has one.
    pub fn get(&self, kind: EntityType) -> (info: Option<EntityInfo>)
        ensures
            info == self.spec_get(kind),
    {
        match kind {
            EntityType::Account => Some(self.sender),
            EntityType::Paymaster => self.paymaster,
            EntityType::Aggregator => self.aggregator,
            EntityType::Factory => self.factory,
        }
    }
}

/// How many operations use one address, by the role it has in them.
#[derive(Clone, Copy, Debug, PartialEq, Eq, Structural, Default)]
pub struct EntityCounter {
    sender: u64,
    paymaster: u64,
    aggregator: u64,
    factory: u64,
}

impl EntityCounter {
    /// The count kept for one role.
    pub closed spec fn spec_get(self, kind: EntityType) -> nat {
        match kind {
            EntityType::Account => self.sender as nat,
            EntityType::Paymaster => self.paymaster as nat,
            EntityType::Aggregator => self.aggregator as nat,
            EntityType::Factory => self.factory as nat,
        }
    }

    /// The sum of the counts of the four roles.
    pub open spec fn spec_total(self) -> nat {
        self.spec_get(EntityType::Account) + self.spec_get(EntityType::Paymaster) + self.spec_get(
            EntityType::Aggregator,
        ) + self.spec_get(EntityType::Factory)
    }

    /// Whether the address is used in a role other than sender.
    pub open spec fn spec_includes_non_sender(self) -> bool {
        self.spec_get(EntityType::Paymaster) + self.spec_get(EntityType::Aggregator)
            + self.spec_get(EntityType::Factory) > 0
    }

    /// A counter with every count at zero.
    pub fn new() -> (counter: EntityCounter)
        ensures
            forall|kind: EntityType| counter.spec_get(kind) == 0,
    {
        EntityCounter { sender: 0, paymaster: 0, aggregator: 0, factory: 0 }
    }

    /// The count kept for one role.
    pub fn get(&self, kind: EntityType) -> (count: u64)
        ensures
            count == self.spec_get(kind),
    {
        match kind {
            EntityType::Account => self.sender,
            EntityType::Paymaster => self.paymaster,
            EntityType::Aggregator => self.aggregator,
            EntityType::Factory => self.factory,
        }
    }

    /// The number of operations that the address sends.
    pub fn sender(&self) -> (count: u64)
        ensures
            count == self.spec_get(EntityType::Account),
    {
        self.sender
    }

    /// The sum of the counts of the four roles.
    pub fn total(&self) -> (total: u128)
        ensures
            total == self.spec_total(),
    {
        (self.sender as u128) + (self.paymaster as u128) + (self.aggregator as u128) + (
        self.factory as u128)
    }

    /// Whether the address is used in a role other than sender.
    pub fn includes_non_sender(&self) -> (r: bool)
        ensures
            r == self.spec_includes_non_sender(),
    {
        self.paymaster > 0 || self.aggregator > 0 || self.factory > 0
    }

    /// Counts one more operation in the given role.
    pub fn increment_entity_count(&mut self, kind: EntityType)
        requires
            old(self).spec_get(kind) < u64::MAX,
        ensures
            final(self).spec_get(kind) == old(self).spec_get(kind) + 1,
            forall|other: EntityType|
                other != kind ==> final(self).spec_get(other) == old(self).spec_get(other),
    {
        match kind {
            EntityType::Account => {
                self.sender = self.sender + 1;
            },
            EntityType::Paymaster => {
                self.paymaster = self.paymaster + 1;
            },
            EntityType::Aggregator => {
                self.aggregator = self.aggregator + 1;
            },
            EntityType::Factory => {
                self.factory = self.factory + 1;
            },
        }
    }

    /// Counts one operation fewer in the given role; a count at zero stays
    /// there.
    pub fn decrement_entity_count(&mut self, kind: EntityType)
        ensures
            final(self).spec_get(kind) == if old(self).spec_get(kind) > 0 {
                (old(self).spec_get(kind) - 1) as nat
            } else {
                0
            },
            forall|other: EntityType|
                other != kind ==> final(self).spec_get(other) == old(self).spec_get(other),
    {
        match kind {
            EntityType::Account => {
                if self.sender > 0 {
                    self.sender = self.sender - 1;
                }
            },
            EntityType::Paymaster => {
                if self.paymaster > 0 {
                    self.paymaster = self.paymaster - 1;
                }
            },
            EntityType::Aggregator => {
                if self.aggregator > 0 {
                    self.aggregator = self.aggregator - 1;
                }
            },
            EntityType::Factory => {
                if self.factory > 0 {
                    self.factory = self.factory - 1;
                }
            },
        }
    }
}

} // verus!
