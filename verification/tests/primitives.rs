use bundler_core::primitives::{
    push_be_bytes, push_zero_bytes, read_be_bytes, Address, H256, U256,
};
use bundler_core::user_operation::{
    build_hash_preimage, build_packed_preimage, PoolOperation, Timestamp, UserOperation,
    ValidTimeRange,
};
use ethers::abi::{encode, Token};
use ethers::utils::keccak256;

fn outside(x: U256) -> ethers::types::U256 {
    ethers::types::U256([x.w0, x.w1, x.w2, x.w3])
}

fn inside(x: ethers::types::U256) -> U256 {
    U256 { w3: x.0[3], w2: x.0[2], w1: x.0[1], w0: x.0[0] }
}

fn hash_bytes(hash: H256) -> Vec<u8> {
    let mut bytes = hash.hi.to_be_bytes().to_vec();
    bytes.extend_from_slice(&hash.lo.to_be_bytes());
    bytes
}

fn big() -> U256 {
    U256 { w3: 0x100, w2: 7, w1: u64::MAX, w0: 12345 }
}

#[test]
fn u256_small_values() {
    assert_eq!(U256::zero(), U256::from(0));
    assert!(U256::zero().is_zero());
    assert!(!U256::from_u64(1).is_zero());
    assert!(!(U256 { w3: 1, w2: 0, w1: 0, w0: 0 }).is_zero());
    assert_eq!(U256::from_u64(77), U256 { w3: 0, w2: 0, w1: 0, w0: 77 });
    assert_eq!(outside(U256::max_value()), ethers::types::U256::MAX);
    assert_eq!(outside(U256::from_u64(u64::MAX)), ethers::types::U256::from(u64::MAX));
}

#[test]
fn u256_order_is_the_numeric_one() {
    let values = [
        U256::zero(),
        U256::from_u64(1),
        U256::from_u64(u64::MAX),
        U256 { w3: 0, w2: 0, w1: 1, w0: 0 },
        U256 { w3: 0, w2: 1, w1: 0, w0: 5 },
        U256 { w3: 0, w2: 1, w1: 3, w0: 0 },
        big(),
        U256::max_value(),
    ];
    for (i, a) in values.iter().enumerate() {
        for (j, b) in values.iter().enumerate() {
            assert_eq!(a.lt(b), i < j);
            assert_eq!(a.le(b), i <= j);
            assert_eq!(a.lt(b), outside(*a) < outside(*b));
            assert_eq!(a < b, i < j);
        }
    }
}

#[test]
fn u256_capped_arithmetic() {
    let one = U256::from_u64(1);
    let max = U256::max_value();
    assert_eq!(U256::from_u64(40).saturating_add(2.into()), 42.into());
    assert_eq!(U256::from_u64(u64::MAX).saturating_add(one), U256 { w3: 0, w2: 0, w1: 1, w0: 0 });
    assert_eq!(max.saturating_add(one), max);
    assert_eq!(big().saturating_add(one), inside(outside(big()) + 1));
    assert_eq!(U256::from_u64(40).saturating_sub(2.into()), 38.into());
    assert_eq!(U256::from_u64(2).saturating_sub(40.into()), U256::zero());
    assert_eq!(
        (U256 { w3: 0, w2: 0, w1: 1, w0: 0 }).saturating_sub(one),
        U256::from_u64(u64::MAX)
    );
    assert_eq!(U256::from_u64(6).saturating_mul(7.into()), 42.into());
    assert_eq!(big().saturating_mul(3.into()), inside(outside(big()) * 3));
    assert_eq!(max.saturating_mul(2.into()), max);
    assert_eq!(max.saturating_mul(U256::zero()), U256::zero());
}

#[test]
fn increase_by_percent_values() {
    assert_eq!(U256::from_u64(10000).increase_by_percent(5), 10500.into());
    assert_eq!(U256::from_u64(100).increase_by_percent(10), 110.into());
    assert_eq!(U256::from_u64(10).increase_by_percent(10), 11.into());
    // the raise is rounded up
    assert_eq!(U256::from_u64(15).increase_by_percent(10), 17.into());
    assert_eq!(U256::from_u64(1).increase_by_percent(1), 2.into());
    assert_eq!(U256::from_u64(99).increase_by_percent(1), 100.into());
    assert_eq!(U256::from_u64(101).increase_by_percent(1), 103.into());
    assert_eq!(U256::zero().increase_by_percent(50), U256::zero());
    assert_eq!(U256::from_u64(123).increase_by_percent(0), 123.into());
    assert_eq!(U256::from_u64(7).increase_by_percent(300), 28.into());
    assert_eq!(
        U256::from_u64(u64::MAX).checked_increase_by_percent(100),
        Some(U256 { w3: 0, w2: 0, w1: 1, w0: u64::MAX - 1 })
    );
    let raised = outside(big()) + (outside(big()) * 37 + 99) / 100;
    assert_eq!(big().checked_increase_by_percent(37), Some(inside(raised)));
    assert_eq!(big().increase_by_percent(37), inside(raised));
}

#[test]
fn increase_by_percent_at_the_top() {
    let max = U256::max_value();
    assert_eq!(max.checked_increase_by_percent(0), Some(max));
    assert_eq!(max.checked_increase_by_percent(1), None);
    assert_eq!(max.increase_by_percent(1), max);
    assert_eq!(max.increase_by_percent(u64::MAX), max);
    // the product overflows, the result does not
    let third = inside(ethers::types::U256::MAX / 3);
    let expected = outside(third) + outside(third) / 2 + 1;
    assert_eq!(third.checked_increase_by_percent(50), Some(inside(expected)));
    // half of the range doubled is one more than the range holds
    let half = inside(ethers::types::U256::MAX / 2 + 1);
    assert_eq!(half.checked_increase_by_percent(100), None);
    assert_eq!(half.increase_by_percent(100), max);
    assert_eq!(
        inside(ethers::types::U256::MAX / 2).checked_increase_by_percent(100),
        Some(inside(ethers::types::U256::MAX - 1))
    );
}

#[test]
fn big_endian_bytes() {
    let mut out = vec![9u8];
    push_be_bytes(&mut out, 0x0102_0304, 4);
    assert_eq!(out, vec![9, 1, 2, 3, 4]);
    push_be_bytes(&mut out, 0xaabb, 1);
    assert_eq!(out, vec![9, 1, 2, 3, 4, 0xbb]);
    push_be_bytes(&mut out, 5, 0);
    assert_eq!(out.len(), 6);
    push_zero_bytes(&mut out, 3);
    assert_eq!(out, vec![9, 1, 2, 3, 4, 0xbb, 0, 0, 0]);
    let mut wide = vec![];
    push_be_bytes(&mut wide, u128::MAX - 1, 16);
    assert_eq!(wide, (u128::MAX - 1).to_be_bytes().to_vec());
    assert_eq!(read_be_bytes(&wide, 0, 16), u128::MAX - 1);
    assert_eq!(read_be_bytes(&out, 1, 5), 0x0102_0304);
    assert_eq!(read_be_bytes(&out, 2, 2), 0);
    assert_eq!(read_be_bytes(&out, 5, 6), 0xbb);
}

#[test]
fn address_bytes() {
    let address = Address { hi: 0xdead_beef, lo: 0x0011_2233_4455_6677_8899_aabb_ccdd_eeff };
    let bytes = address.to_bytes();
    assert_eq!(
        bytes,
        vec![
            0xde, 0xad, 0xbe, 0xef, 0x00, 0x11, 0x22, 0x33, 0x44, 0x55, 0x66, 0x77, 0x88, 0x99,
            0xaa, 0xbb, 0xcc, 0xdd, 0xee, 0xff
        ]
    );
    assert_eq!(Address::from_prefix(&bytes), Some(address));
    let mut longer = bytes.clone();
    longer.extend_from_slice(&[1, 2, 3]);
    assert_eq!(Address::from_prefix(&longer), Some(address));
    assert_eq!(Address::from_prefix(&bytes[..19].to_vec()), None);
    assert_eq!(Address::from_prefix(&vec![]), None);
    assert_eq!(Address::zero().to_bytes(), vec![0u8; 20]);
    assert_eq!(
        Address::from_low_u64_be(0x0102).to_bytes(),
        ethers::types::Address::from_low_u64_be(0x0102).as_bytes().to_vec()
    );
    assert_eq!(H256::zero(), H256::from_low_u64_be(0));
    assert_eq!(H256::from_low_u64_be(5).lo, 5);
}

#[test]
fn user_operation_entities() {
    let mut op = UserOperation::default();
    assert_eq!(op.paymaster(), None);
    assert_eq!(op.factory(), None);
    op.paymaster_and_data = Address::from_low_u64_be(7).to_bytes();
    op.paymaster_and_data.extend_from_slice(&[0xff; 40]);
    op.init_code = vec![0x11; 19];
    assert_eq!(op.paymaster(), Some(Address::from_low_u64_be(7)));
    assert_eq!(op.factory(), None);
    op.init_code.push(0x11);
    assert_eq!(
        op.factory(),
        Some(Address { hi: 0x1111_1111, lo: 0x1111_1111_1111_1111_1111_1111_1111_1111 })
    );
    op.sender = Address::from_low_u64_be(3);
    op.nonce = 9.into();
    assert_eq!(op.id().sender, Address::from_low_u64_be(3));
    assert_eq!(op.id().nonce, 9.into());
}

#[test]
fn max_gas_cost_values() {
    let mut op = UserOperation {
        call_gas_limit: 100.into(),
        verification_gas_limit: 20.into(),
        pre_verification_gas: 3.into(),
        max_fee_per_gas: 5.into(),
        ..UserOperation::default()
    };
    // (100 + 20 + 3) * 5
    assert_eq!(op.max_gas_cost(), 615.into());
    op.paymaster_and_data = Address::from_low_u64_be(7).to_bytes();
    // with a paymaster the verification gas counts three times
    assert_eq!(op.max_gas_cost(), 815.into());
    op.max_fee_per_gas = U256::zero();
    assert_eq!(op.max_gas_cost(), U256::zero());
    op.max_fee_per_gas = U256::max_value();
    assert_eq!(op.max_gas_cost(), U256::max_value());
    op.max_fee_per_gas = 1.into();
    op.verification_gas_limit = U256::max_value();
    assert_eq!(op.max_gas_cost(), U256::max_value());
}

fn sample_operation() -> UserOperation {
    UserOperation {
        sender: Address { hi: 0x0a0b_0c0d, lo: 0x1234 },
        nonce: big(),
        init_code: vec![1, 2, 3],
        call_data: (0..=255u8).collect(),
        call_gas_limit: 100_000.into(),
        verification_gas_limit: 200_000.into(),
        pre_verification_gas: 21_000.into(),
        max_fee_per_gas: 3_000_000_000u64.into(),
        max_priority_fee_per_gas: 1_000_000_000u64.into(),
        paymaster_and_data: Address::from_low_u64_be(99).to_bytes(),
        signature: vec![7; 65],
    }
}

fn expected_hash(op: &UserOperation, entry_point: Address, chain_id: u64) -> Vec<u8> {
    let address = |a: Address| ethers::types::Address::from_slice(&a.to_bytes());
    let packed = encode(&[
        Token::Address(address(op.sender)),
        Token::Uint(outside(op.nonce)),
        Token::FixedBytes(keccak256(&op.init_code).to_vec()),
        Token::FixedBytes(keccak256(&op.call_data).to_vec()),
        Token::Uint(outside(op.call_gas_limit)),
        Token::Uint(outside(op.verification_gas_limit)),
        Token::Uint(outside(op.pre_verification_gas)),
        Token::Uint(outside(op.max_fee_per_gas)),
        Token::Uint(outside(op.max_priority_fee_per_gas)),
        Token::FixedBytes(keccak256(&op.paymaster_and_data).to_vec()),
    ]);
    keccak256(encode(&[
        Token::FixedBytes(keccak256(packed).to_vec()),
        Token::Address(address(entry_point)),
        Token::Uint(chain_id.into()),
    ]))
    .to_vec()
}

#[test]
fn op_hash_is_the_keccak_of_the_packed_operation() {
    let op = sample_operation();
    let entry_point = Address { hi: 0x5ff1_37d4, lo: 0xb0fd_cd49_dca3_0c7c_f57e_578a_026d_2789 };
    let hash = op.op_hash(entry_point, 1337);
    assert_eq!(hash_bytes(hash), expected_hash(&op, entry_point, 1337));
    assert_ne!(hash, H256::zero());

    // the signature is no part of it; everything else is
    let mut signed = op.clone();
    signed.signature = vec![];
    assert_eq!(signed.op_hash(entry_point, 1337), hash);
    assert_ne!(op.op_hash(entry_point, 1338), hash);
    assert_ne!(op.op_hash(Address::zero(), 1337), hash);
    let mut other = op.clone();
    other.call_data.push(0);
    assert_ne!(other.op_hash(entry_point, 1337), hash);
    assert_eq!(hash_bytes(other.op_hash(entry_point, 1337)), expected_hash(&other, entry_point, 1337));
    let empty = UserOperation::default();
    assert_eq!(
        hash_bytes(empty.op_hash(Address::zero(), 0)),
        expected_hash(&empty, Address::zero(), 0)
    );
}

#[test]
fn preimages_are_words_of_32_bytes() {
    let op = sample_operation();
    let a = H256 { hi: 1, lo: 2 };
    let b = H256 { hi: 3, lo: 4 };
    let c = H256 { hi: 5, lo: 6 };
    let packed = build_packed_preimage(&op, a, b, c);
    assert_eq!(packed.len(), 320);
    assert_eq!(&packed[0..12], &[0u8; 12]);
    assert_eq!(&packed[12..32], op.sender.to_bytes().as_slice());
    assert_eq!(&packed[64..96], hash_bytes(a).as_slice());
    assert_eq!(&packed[96..128], hash_bytes(b).as_slice());
    assert_eq!(&packed[288..320], hash_bytes(c).as_slice());
    assert_eq!(packed[159], 0xa0);
    let outer = build_hash_preimage(a, Address::from_low_u64_be(0xee), 0x0102);
    assert_eq!(outer.len(), 96);
    assert_eq!(&outer[0..32], hash_bytes(a).as_slice());
    assert_eq!(outer[63], 0xee);
    assert_eq!(&outer[94..96], &[1, 2]);
    assert!(outer[64..94].iter().all(|byte| *byte == 0));
}

#[test]
fn time_ranges() {
    assert_eq!(Timestamp::new(5).seconds_since_epoch(), 5);
    assert_eq!(Timestamp::from(5), Timestamp::new(5));
    assert!(Timestamp::new(5).is_before(&Timestamp::new(6)));
    assert!(!Timestamp::new(6).is_before(&Timestamp::new(6)));
    assert_eq!(Timestamp::max_value().secs, u64::MAX);
    let all = ValidTimeRange::default();
    assert_eq!(all, ValidTimeRange::all_time());
    assert_eq!(all, ValidTimeRange::new(Timestamp::new(0), Timestamp::max_value()));
    assert_eq!(PoolOperation::default().valid_time_range, all);
}
