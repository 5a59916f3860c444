//! User operations and what the pool keeps with them.

use crate::entity::{Entity, EntityInfos, EntityType};
use crate::hash::{keccak256, keccak256_of};
use crate::primitives::{
    push_zero_bytes, spec_saturating_add, spec_saturating_mul, Address, H256, U256,
};
use vstd::layout::size_of;
use vstd::prelude::*;

verus! {

/// A point in time, in seconds since the epoch.
#[derive(Clone, Copy, Debug, PartialEq, Eq, Structural, PartialOrd, Ord, Hash, Default)]
pub struct Timestamp {
    pub secs: u64,
}

impl Timestamp {
    pub fn new(secs: u64) -> (t: Timestamp)
        ensures
            t.secs == secs,
    {
        Timestamp { secs }
    }

    /// The latest point in time that can be told.
    pub fn max_value() -> (t: Timestamp)
        ensures
            t.secs == u64::MAX,
    {
        Timestamp { secs: u64::MAX }
    }

    pub fn seconds_since_epoch(&self) -> (secs: u64)
        ensures
            secs == self.secs,
    {
        self.secs
    }

    /// Whether `self` is strictly before `other`.
    pub fn is_before(&self, other: &Timestamp) -> (r: bool)
        ensures
            r == (self.secs < other.secs),
    {
        self.secs < other.secs
    }
}

impl From<u64> for Timestamp {
    fn from(secs: u64) -> (t: Timestamp) {
        Timestamp { secs }
    }
}

impl vstd::std_specs::convert::FromSpecImpl<u64> for Timestamp {
    open spec fn obeys_from_spec() -> bool {
        true
    }

    open spec fn from_spec(secs: u64) -> Timestamp {
        Timestamp { secs }
    }
}

/// The span of time in which an operation is valid.
#[derive(Clone, Copy, Debug, PartialEq, Eq, Structural)]
pub struct ValidTimeRange {
    pub valid_after: Timestamp,
    pub valid_until: Timestamp,
}

impl ValidTimeRange {
    pub fn new(valid_after: Timestamp, valid_until: Timestamp) -> (range: ValidTimeRange)
        ensures
            range == (ValidTimeRange { valid_after, valid_until }),
    {
        ValidTimeRange { valid_after, valid_until }
    }

    /// The range that holds every point in time.
    pub fn all_time() -> (range: ValidTimeRange)
        ensures
            range == (ValidTimeRange {
                valid_after: Timestamp { secs: 0 },
                valid_until: Timestamp { secs: u64::MAX },
            }),
    {
        ValidTimeRange { valid_after: Timestamp { secs: 0 }, valid_until: Timestamp::max_value() }
    }
}

impl Default for ValidTimeRange {
    fn default() -> (range: ValidTimeRange)
        ensures
            range == (ValidTimeRange {
                valid_after: Timestamp { secs: 0 },
                valid_until: Timestamp { secs: u64::MAX },
            }),
    {
        ValidTimeRange::all_time()
    }
}

/// What identifies an operation to its sender: the sender and the nonce.
#[derive(Clone, Copy, Debug, PartialEq, Eq, Structural, Hash)]
pub struct UserOperationId {
    pub sender: Address,
    pub nonce: U256,
}

/// A user operation as it is submitted.
#[derive(Clone, Debug, PartialEq, Eq, Default)]
pub struct UserOperation {
    pub sender: Address,
    pub nonce: U256,
    pub init_code: Vec<u8>,
    pub call_data: Vec<u8>,
    pub call_gas_limit: U256,
    pub verification_gas_limit: U256,
    pub pre_verification_gas: U256,
    pub max_fee_per_gas: U256,
    pub max_priority_fee_per_gas: U256,
    pub paymaster_and_data: Vec<u8>,
    pub signature: Vec<u8>,
}

/// An address as a 32-byte word: twelve zero bytes, then the address.
pub open spec fn address_word(address: Address) -> Seq<u8> {
    Seq::new(12, |i: int| 0u8) + address.spec_bytes()
}

/// A 64-bit number as a 32-byte word.
pub open spec fn u64_word(value: u64) -> Seq<u8> {
    (U256 { w3: 0, w2: 0, w1: 0, w0: value }).spec_bytes()
}

/// The bytes whose digest is the fingerprint of an operation's content,
/// given the digests of its three byte fields.
pub open spec fn packed_preimage(
    op: UserOperation,
    init_code_hash: H256,
    call_data_hash: H256,
    paymaster_and_data_hash: H256,
) -> Seq<u8> {
    address_word(op.sender) + op.nonce.spec_bytes() + init_code_hash.spec_bytes()
        + call_data_hash.spec_bytes() + op.call_gas_limit.spec_bytes()
        + op.verification_gas_limit.spec_bytes() + op.pre_verification_gas.spec_bytes()
        + op.max_fee_per_gas.spec_bytes() + op.max_priority_fee_per_gas.spec_bytes()
        + paymaster_and_data_hash.spec_bytes()
}

/// The bytes whose digest is the hash of an operation at an entry point on a
/// chain, given the digest of its content.
pub open spec fn hash_preimage(content_hash: H256, entry_point: Address, chain_id: u64) -> Seq<
    u8,
> {
    content_hash.spec_bytes() + address_word(entry_point) + u64_word(chain_id)
}

/// The hash of an operation at an entry point on a chain.
pub open spec fn spec_op_hash(op: UserOperation, entry_point: Address, chain_id: u64) -> H256 {
    keccak256_of(
        hash_preimage(
            keccak256_of(
                packed_preimage(
                    op,
                    keccak256_of(op.init_code@),
                    keccak256_of(op.call_data@),
                    keccak256_of(op.paymaster_and_data@),
                ),
            ),
            entry_point,
            chain_id,
        ),
    )
}

/// Appends an address as a 32-byte word.
fn write_address_word(address: &Address, out: &mut Vec<u8>)
    ensures
        final(out)@ == old(out)@ + address_word(*address),
{
    push_zero_bytes(out, 12);
    address.write_bytes(out);
    assert(out@ =~= old(out)@ + address_word(*address));
}

/// Builds the bytes whose digest is the fingerprint of an operation's
/// content.
pub fn build_packed_preimage(
    op: &UserOperation,
    init_code_hash: H256,
    call_data_hash: H256,
    paymaster_and_data_hash: H256,
) -> (out: Vec<u8>)
    ensures
        out@ == packed_preimage(*op, init_code_hash, call_data_hash, paymaster_and_data_hash),
{
    let mut out: Vec<u8> = Vec::new();
    write_address_word(&op.sender, &mut out);
    op.nonce.write_bytes(&mut out);
    init_code_hash.write_bytes(&mut out);
    call_data_hash.write_bytes(&mut out);
    op.call_gas_limit.write_bytes(&mut out);
    op.verification_gas_limit.write_bytes(&mut out);
    op.pre_verification_gas.write_bytes(&mut out);
    op.max_fee_per_gas.write_bytes(&mut out);
    op.max_priority_fee_per_gas.write_bytes(&mut out);
    paymaster_and_data_hash.write_bytes(&mut out);
    assert(out@ =~= packed_preimage(
        *op,
        init_code_hash,
        call_data_hash,
        paymaster_and_data_hash,
    ));
    out
}

/// Builds the bytes whose digest is the hash of an operation at an entry
/// point on a chain.
pub fn build_hash_preimage(content_hash: H256, entry_point: Address, chain_id: u64) -> (out: Vec<
    u8,
>)
    ensures
        out@ == hash_preimage(content_hash, entry_point, chain_id),
{
    let mut out: Vec<u8> = Vec::new();
    content_hash.write_bytes(&mut out);
    write_address_word(&entry_point, &mut out);
    U256::from_u64(chain_id).write_bytes(&mut out);
    assert(out@ =~= hash_preimage(content_hash, entry_point, chain_id));
    out
}

impl UserOperation {
    /// The sender and nonce of the operation.
    pub open spec fn spec_id(self) -> UserOperationId {
        UserOperationId { sender: self.sender, nonce: self.nonce }
    }

    /// The paymaster named at the head of `paymaster_and_data`, if any.
    pub open spec fn spec_paymaster(self) -> Option<Address> {
        Address::spec_from_prefix(self.paymaster_and_data@)
    }

    /// The factory named at the head of `init_code`, if any.
    pub open spec fn spec_factory(self) -> Option<Address> {
        Address::spec_from_prefix(self.init_code@)
    }

    /// The most gas the operation may use: three times the verification gas
    /// where a paymaster takes part, each step capped at 2^256 - 1.
    pub open spec fn spec_max_gas(self) -> U256 {
        let factor: u64 = if self.spec_paymaster() is Some {
            3
        } else {
            1
        };
        spec_saturating_add(
            spec_saturating_add(
                self.call_gas_limit,
                spec_saturating_mul(
                    self.verification_gas_limit,
                    U256 { w3: 0, w2: 0, w1: 0, w0: factor },
                ),
            ),
            self.pre_verification_gas,
        )
    }

    /// The most the operation may cost: its gas at its highest fee, capped at
    /// 2^256 - 1.
    pub open spec fn spec_max_gas_cost(self) -> U256 {
        spec_saturating_mul(self.spec_max_gas(), self.max_fee_per_gas)
    }

    /// The number of bytes the operation keeps on the heap.
    pub open spec fn spec_heap_size(self) -> nat {
        self.init_code@.len() + self.call_data@.len() + self.paymaster_and_data@.len()
            + self.signature@.len()
    }

    /// The sender and nonce of the operation.
    pub fn id(&self) -> (id: UserOperationId)
        ensures
            id == self.spec_id(),
    {
        UserOperationId { sender: self.sender, nonce: self.nonce }
    }

    /// The paymaster named at the head of `paymaster_and_data`, if any.
    pub fn paymaster(&self) -> (paymaster: Option<Address>)
        ensures
            paymaster == self.spec_paymaster(),
    {
        Address::from_prefix(&self.paymaster_and_data)
    }

    /// The factory named at the head of `init_code`, if any.
    pub fn factory(&self) -> (factory: Option<Address>)
        ensures
            factory == self.spec_factory(),
    {
        Address::from_prefix(&self.init_code)
    }

    /// The most the operation may cost.
    pub fn max_gas_cost(&self) -> (cost: U256)
        ensures
            cost == self.spec_max_gas_cost(),
    {
        let factor: u64 = if self.paymaster().is_some() {
            3
        } else {
            1
        };
        let verification = self.verification_gas_limit.saturating_mul(U256::from_u64(factor));
        let gas = self.call_gas_limit.saturating_add(verification).saturating_add(
            self.pre_verification_gas,
        );
        gas.saturating_mul(self.max_fee_per_gas)
    }

    /// The number of bytes the operation keeps on the heap.
    pub fn heap_size(&self) -> (size: u128)
        ensures
            size == self.spec_heap_size(),
            size <= 4 * usize::MAX,
    {
        (self.init_code.len() as u128) + (self.call_data.len() as u128) + (
        self.paymaster_and_data.len() as u128) + (self.signature.len() as u128)
    }

    /// The hash of the operation at an entry point on a chain.
    pub fn op_hash(&self, entry_point: Address, chain_id: u64) -> (hash: H256)
        ensures
            hash == spec_op_hash(*self, entry_point, chain_id),
    {
        let init_code_hash = keccak256(&self.init_code);
        let call_data_hash = keccak256(&self.call_data);
        let paymaster_and_data_hash = keccak256(&self.paymaster_and_data);
        let packed = build_packed_preimage(
            self,
            init_code_hash,
            call_data_hash,
            paymaster_and_data_hash,
        );
        let content_hash = keccak256(&packed);
        let preimage = build_hash_preimage(content_hash, entry_point, chain_id);
        keccak256(&preimage)
    }
}

/// The largest size that is counted for one operation.
pub open spec fn max_operation_size() -> nat {
    isize::MAX as nat
}

/// A user operation with what validation found out about it.
#[derive(Clone, Debug, PartialEq, Eq, Default)]
pub struct PoolOperation {
    /// The operation itself.
    pub uo: UserOperation,
    /// The aggregator that signs for the operation, if any.
    pub aggregator: Option<Address>,
    /// When the operation is valid.
    pub valid_time_range: ValidTimeRange,
    /// The block at which the operation was simulated.
    pub sim_block_number: u64,
    /// The entities of the operation, as simulation saw them.
    pub entity_infos: EntityInfos,
}

impl PoolOperation {
    /// The address that the operation has in the given role, if any.
    pub open spec fn spec_entity_address(self, kind: EntityType) -> Option<Address> {
        match kind {
            EntityType::Account => Some(self.uo.sender),
            EntityType::Paymaster => self.uo.spec_paymaster(),
            EntityType::Aggregator => self.aggregator,
            EntityType::Factory => self.uo.spec_factory(),
        }
    }

    /// Whether simulation recorded `entity` for the operation.
    pub open spec fn spec_contains_entity(self, entity: Entity) -> bool {
        match self.entity_infos.spec_get(entity.kind) {
            Some(info) => info.address == entity.address,
            None => false,
        }
    }

    /// The estimated size of the operation in memory: what the value takes
    /// and what it keeps on the heap, at most `isize::MAX`.
    pub open spec fn spec_mem_size(self) -> nat {
        if size_of::<PoolOperation>() + self.uo.spec_heap_size() > max_operation_size() {
            max_operation_size()
        } else {
            size_of::<PoolOperation>() + self.uo.spec_heap_size()
        }
    }

    /// The address that the operation has in the given role, if any.
    pub fn entity_address(&self, kind: EntityType) -> (address: Option<Address>)
        ensures
            address == self.spec_entity_address(kind),
    {
        match kind {
            EntityType::Account => Some(self.uo.sender),
            EntityType::Paymaster => self.uo.paymaster(),
            EntityType::Aggregator => self.aggregator,
            EntityType::Factory => self.uo.factory(),
        }
    }

    /// Whether simulation recorded `entity` for the operation.
    pub fn contains_entity(&self, entity: &Entity) -> (r: bool)
        ensures
            r == self.spec_contains_entity(*entity),
    {
        match self.entity_infos.get(entity.kind) {
            Some(info) => info.address == entity.address,
            None => false,
        }
    }

    /// The estimated size of the operation in memory.
    pub fn mem_size(&self) -> (size: usize)
        ensures
            size == self.spec_mem_size(),
            size <= isize::MAX,
    {
        let total: u128 = (core::mem::size_of::<PoolOperation>() as u128) + self.uo.heap_size();
        if total > (isize::MAX as u128) {
            isize::MAX as usize
        } else {
            total as usize
        }
    }
}

} // verus!
