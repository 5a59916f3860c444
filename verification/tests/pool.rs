use std::sync::Arc;

use bundler_core::chain::{BalanceUpdate, MinedOp};
use bundler_core::entity::{Entity, EntityInfo, EntityInfos};
use bundler_core::error::{MempoolError, OtherError};
use bundler_core::ordered::OrderedPoolOperation;
use bundler_core::paymaster::PaymasterMetadata;
use bundler_core::pool::PoolInner;
use bundler_core::pool_view::{PoolConfig, PoolInnerConfig};
use bundler_core::primitives::{Address, H256, U256};
use bundler_core::user_operation::{PoolOperation, Timestamp, UserOperation};

fn address(n: u64) -> Address {
    Address::from_low_u64_be(n)
}

fn conf() -> PoolInnerConfig {
    PoolInnerConfig {
        entry_point: address(0xe0),
        chain_id: 1,
        min_replacement_fee_increase_percentage: 10,
        max_size_of_pool_bytes: 20 * mem_size_of_ordered_pool_op(),
        throttled_entity_mempool_count: 4,
        throttled_entity_live_blocks: 10,
        paymaster_tracking_enabled: true,
    }
}

fn mem_size_of_ordered_pool_op() -> usize {
    OrderedPoolOperation { po: Arc::new(create_op(address(1), 1, 1)), submission_id: 1 }.mem_size()
}

fn create_op(sender: Address, nonce: usize, max_fee_per_gas: usize) -> PoolOperation {
    PoolOperation {
        uo: UserOperation {
            sender,
            nonce: U256::from(nonce as u64),
            max_fee_per_gas: U256::from(max_fee_per_gas as u64),
            ..UserOperation::default()
        },
        entity_infos: EntityInfos {
            factory: None,
            sender: EntityInfo { address: sender, is_staked: false },
            paymaster: None,
            aggregator: None,
        },
        ..PoolOperation::default()
    }
}

fn with_paymaster(mut op: PoolOperation, paymaster: Address) -> PoolOperation {
    op.uo.paymaster_and_data = paymaster.to_bytes();
    op.entity_infos.paymaster =
        Some(EntityInfo { address: op.uo.paymaster().unwrap(), is_staked: false });
    op
}

fn check_map_entry(actual: Option<Arc<PoolOperation>>, expected: Option<&PoolOperation>) {
    match (actual, expected) {
        (Some(actual), Some(expected)) => assert_eq!(*actual, *expected),
        (None, None) => (),
        (actual, expected) => panic!("Expected {expected:?}, got {actual:?}"),
    }
}

fn best_at(pool: &PoolInner, n: usize) -> Option<Arc<PoolOperation>> {
    pool.best_operations().get(n).cloned()
}

fn hash_of(pool: &PoolInner, op: &PoolOperation) -> H256 {
    op.uo.op_hash(pool.config().entry_point, pool.config().chain_id)
}

fn mined(pool: &PoolInner, op: &PoolOperation, actual_gas_cost: u64) -> MinedOp {
    MinedOp {
        paymaster: op.uo.paymaster(),
        actual_gas_cost: U256::from(actual_gas_cost),
        hash: hash_of(pool, op),
        entry_point: pool.config().entry_point,
        sender: op.uo.sender,
        nonce: op.uo.nonce,
    }
}

#[test]
fn add_single_op() {
    let mut pool = PoolInner::new(conf());
    let op = create_op(address(1), 0, 1);
    let hash = pool.add_operation(op.clone(), None).unwrap();

    check_map_entry(pool.get_operation_by_hash(hash), Some(&op));
    check_map_entry(pool.get_operation_by_id(op.uo.id()), Some(&op));
    check_map_entry(best_at(&pool, 0), Some(&op));
}

#[test]
fn add_multiple_ops() {
    let mut pool = PoolInner::new(conf());
    let ops = vec![
        create_op(address(1), 0, 1),
        create_op(address(2), 0, 2),
        create_op(address(3), 0, 3),
    ];

    let mut hashes = vec![];
    for op in ops.iter() {
        hashes.push(pool.add_operation(op.clone(), None).unwrap());
    }

    for (hash, op) in hashes.iter().zip(&ops) {
        check_map_entry(pool.get_operation_by_hash(*hash), Some(op));
        check_map_entry(pool.get_operation_by_id(op.uo.id()), Some(op));
    }

    // best should be sorted by gas
    assert_eq!(pool.best_operations().len(), 3);
    check_map_entry(best_at(&pool, 0), Some(&ops[2]));
    check_map_entry(best_at(&pool, 1), Some(&ops[1]));
    check_map_entry(best_at(&pool, 2), Some(&ops[0]));
}

#[test]
fn best_ties() {
    let mut pool = PoolInner::new(conf());
    let ops = vec![
        create_op(address(1), 0, 1),
        create_op(address(2), 0, 1),
        create_op(address(3), 0, 1),
    ];

    let mut hashes = vec![];
    for op in ops.iter() {
        hashes.push(pool.add_operation(op.clone(), None).unwrap());
    }

    // best should be sorted by gas, then by submission id
    assert_eq!(pool.best_operations().len(), 3);
    check_map_entry(best_at(&pool, 0), Some(&ops[0]));
    check_map_entry(best_at(&pool, 1), Some(&ops[1]));
    check_map_entry(best_at(&pool, 2), Some(&ops[2]));
}

#[test]
fn remove_op() {
    let mut pool = PoolInner::new(conf());
    let ops = vec![
        create_op(address(1), 0, 3),
        create_op(address(2), 0, 2),
        create_op(address(3), 0, 1),
    ];

    let mut hashes = vec![];
    for op in ops.iter() {
        hashes.push(pool.add_operation(op.clone(), None).unwrap());
    }

    assert!(pool.remove_operation_by_hash(hashes[0]).is_some());
    check_map_entry(pool.get_operation_by_hash(hashes[0]), None);
    check_map_entry(best_at(&pool, 0), Some(&ops[1]));

    assert!(pool.remove_operation_by_hash(hashes[1]).is_some());
    check_map_entry(pool.get_operation_by_hash(hashes[1]), None);
    check_map_entry(best_at(&pool, 0), Some(&ops[2]));

    assert!(pool.remove_operation_by_hash(hashes[2]).is_some());
    check_map_entry(pool.get_operation_by_hash(hashes[2]), None);
    check_map_entry(best_at(&pool, 0), None);

    assert!(pool.remove_operation_by_hash(hashes[0]).is_none());
    assert!(pool.remove_operation_by_hash(hashes[1]).is_none());
    assert!(pool.remove_operation_by_hash(hashes[2]).is_none());
}

#[test]
fn remove_account() {
    let mut pool = PoolInner::new(conf());
    let account = address(1);
    let ops = vec![create_op(account, 0, 3), create_op(account, 1, 2), create_op(account, 2, 1)];
    for mut op in ops.into_iter() {
        op.aggregator = Some(account);
        pool.add_operation(op.clone(), None).unwrap();
    }
    assert_eq!(pool.len(), 3);

    pool.remove_entity(Entity::account(account));
    assert_eq!(pool.len(), 0);
    assert!(pool.get_operation_by_id(create_op(account, 0, 3).uo.id()).is_none());
    assert!(pool.best_operations().is_empty());
}

#[test]
fn mine_op() {
    let mut pool = PoolInner::new(conf());
    let sender = address(1);
    let nonce = 0;

    let op = create_op(sender, nonce, 1);

    let hash = op.uo.op_hash(pool.config().entry_point, pool.config().chain_id);

    pool.add_operation(op.clone(), None).unwrap();

    let mined_op = MinedOp {
        paymaster: None,
        actual_gas_cost: U256::zero(),
        hash,
        entry_point: pool.config().entry_point,
        sender,
        nonce: U256::from(nonce as u64),
    };

    pool.mine_operation(&mined_op, 1);

    assert_eq!(pool.len(), 0);
    assert!(pool.get_operation_by_id(op.uo.id()).is_none());
    assert!(pool.best_operations().is_empty());
}

#[test]
fn mine_op_with_replacement() {
    let mut pool = PoolInner::new(conf());
    let sender = address(1);
    let nonce = 0;

    let op = create_op(sender, nonce, 1);
    let op_2 = create_op(sender, nonce, 2);

    let hash = op_2.uo.op_hash(pool.config().entry_point, pool.config().chain_id);

    pool.add_operation(op, None).unwrap();
    pool.add_operation(op_2.clone(), None).unwrap();

    let mined_op = MinedOp {
        paymaster: None,
        actual_gas_cost: U256::zero(),
        hash,
        entry_point: pool.config().entry_point,
        sender,
        nonce: U256::from(nonce as u64),
    };

    pool.mine_operation(&mined_op, 1);

    assert_eq!(pool.len(), 0);
    assert!(pool.get_operation_by_id(op_2.uo.id()).is_none());
    assert!(pool.best_operations().is_empty());
}

#[test]
fn remove_aggregator() {
    let mut pool = PoolInner::new(conf());
    let agg = address(9);
    let ops = vec![
        create_op(address(1), 0, 3),
        create_op(address(2), 0, 2),
        create_op(address(3), 0, 1),
    ];
    for mut op in ops.into_iter() {
        op.aggregator = Some(agg);
        op.entity_infos.aggregator = Some(EntityInfo { address: agg, is_staked: false });
        pool.add_operation(op.clone(), None).unwrap();
    }
    assert_eq!(pool.len(), 3);

    pool.remove_entity(Entity::aggregator(agg));
    assert_eq!(pool.len(), 0);
    assert_eq!(pool.address_count(&agg), 0);
    assert!(pool.best_operations().is_empty());
}

#[test]
fn remove_paymaster() {
    let mut pool = PoolInner::new(conf());
    let paymaster = address(9);
    let ops = vec![
        create_op(address(1), 0, 3),
        create_op(address(2), 0, 2),
        create_op(address(3), 0, 1),
    ];
    for mut op in ops.into_iter() {
        op.uo.paymaster_and_data = paymaster.to_bytes();
        op.entity_infos.paymaster =
            Some(EntityInfo { address: op.uo.paymaster().unwrap(), is_staked: false });
        pool.add_operation(op.clone(), None).unwrap();
    }
    assert_eq!(pool.len(), 3);

    pool.remove_entity(Entity::paymaster(paymaster));
    assert_eq!(pool.len(), 0);
    assert_eq!(pool.address_count(&paymaster), 0);
    assert!(pool.best_operations().is_empty());
}

#[test]
fn address_count() {
    let mut pool = PoolInner::new(conf());
    let sender = address(1);
    let paymaster = address(2);
    let factory = address(3);
    let aggregator = address(4);

    let mut op = create_op(sender, 0, 1);
    op.uo.paymaster_and_data = paymaster.to_bytes();
    op.entity_infos.paymaster =
        Some(EntityInfo { address: op.uo.paymaster().unwrap(), is_staked: false });
    op.uo.init_code = factory.to_bytes();
    op.entity_infos.factory =
        Some(EntityInfo { address: op.uo.factory().unwrap(), is_staked: false });
    op.aggregator = Some(aggregator);
    op.entity_infos.aggregator = Some(EntityInfo { address: aggregator, is_staked: false });

    let count = 5;
    let mut hashes = vec![];
    for i in 0..count {
        let mut op = op.clone();
        op.uo.nonce = U256::from(i as u64);
        hashes.push(pool.add_operation(op, None).unwrap());
    }

    assert_eq!(pool.address_count(&sender), 5);
    assert_eq!(pool.address_count(&paymaster), 5);
    assert_eq!(pool.address_count(&factory), 5);
    assert_eq!(pool.address_count(&aggregator), 5);

    for hash in hashes.iter() {
        assert!(pool.remove_operation_by_hash(*hash).is_some());
    }

    assert_eq!(pool.address_count(&sender), 0);
    assert_eq!(pool.address_count(&paymaster), 0);
    assert_eq!(pool.address_count(&factory), 0);
    assert_eq!(pool.address_count(&aggregator), 0);
}

#[test]
fn pool_full_new_replaces_worst() {
    let args = conf();
    let mut pool = PoolInner::new(args.clone());
    for i in 0..20 {
        let op = create_op(address(100 + i as u64), i, i + 1);
        pool.add_operation(op, None).unwrap();
    }

    // on greater gas, new op should win
    let op = create_op(address(200), args.max_size_of_pool_bytes, 2);
    let result = pool.add_operation(op, None);
    assert!(result.is_ok(), "{:?}", result.err());
}

#[test]
fn pool_full_worst_remains() {
    let args = conf();
    let mut pool = PoolInner::new(args.clone());
    for i in 0..20 {
        let op = create_op(address(100 + i as u64), i, i + 1);
        pool.add_operation(op, None).unwrap();
    }

    let op = create_op(address(200), 4, 1);
    assert!(pool.add_operation(op, None).is_err());

    // on equal gas, worst should remain because it came first
    let op = create_op(address(201), 4, 2);
    let result = pool.add_operation(op, None);
    assert!(result.is_ok(), "{:?}", result.err());
}

#[test]
fn replace_op_underpriced() {
    let mut pool = PoolInner::new(conf());
    let sender = address(1);
    let mut po1 = create_op(sender, 0, 100);
    po1.uo.max_priority_fee_per_gas = 100.into();
    let _ = pool.add_operation(po1.clone(), None).unwrap();

    let mut po2 = create_op(sender, 0, 101);
    po2.uo.max_priority_fee_per_gas = 101.into();
    let res = pool.add_operation(po2, None);
    assert!(res.is_err());
    match res.err().unwrap() {
        MempoolError::ReplacementUnderpriced(a, b) => {
            assert_eq!(a, 100.into());
            assert_eq!(b, 100.into());
        }
        _ => panic!("wrong error"),
    }

    assert_eq!(pool.address_count(&sender), 1);
    assert_eq!(
        pool.pool_size(),
        OrderedPoolOperation { po: Arc::new(po1), submission_id: 0 }.mem_size() as i128
    );
}

#[test]
fn replace_op() {
    let mut pool = PoolInner::new(conf());
    let sender = address(1);
    let paymaster1 = address(2);
    let mut po1 = create_op(sender, 0, 10);
    po1.uo.max_priority_fee_per_gas = 10.into();
    po1.uo.paymaster_and_data = paymaster1.to_bytes();
    po1.entity_infos.paymaster =
        Some(EntityInfo { address: po1.uo.paymaster().unwrap(), is_staked: false });
    let _ = pool.add_operation(po1, None).unwrap();
    assert_eq!(pool.address_count(&paymaster1), 1);

    let paymaster2 = address(3);
    let mut po2 = create_op(sender, 0, 11);
    po2.uo.max_priority_fee_per_gas = 11.into();
    po2.uo.paymaster_and_data = paymaster2.to_bytes();
    po2.entity_infos.paymaster =
        Some(EntityInfo { address: po2.uo.paymaster().unwrap(), is_staked: false });
    let _ = pool.add_operation(po2.clone(), None).unwrap();

    assert_eq!(pool.address_count(&sender), 1);
    assert_eq!(pool.address_count(&paymaster1), 0);
    assert_eq!(pool.address_count(&paymaster2), 1);
    assert_eq!(
        pool.pool_size(),
        OrderedPoolOperation { po: Arc::new(po2), submission_id: 0 }.mem_size() as i128
    );
}

#[test]
fn test_already_known() {
    let mut pool = PoolInner::new(conf());
    let sender = address(1);
    let mut po1 = create_op(sender, 0, 10);
    po1.uo.max_priority_fee_per_gas = 10.into();
    let _ = pool.add_operation(po1.clone(), None).unwrap();

    let res = pool.add_operation(po1, None);
    assert!(res.is_err());
    match res.err().unwrap() {
        MempoolError::OperationAlreadyKnown => (),
        _ => panic!("wrong error"),
    }
}

#[test]
fn test_expired() {
    let conf = conf();
    let mut pool = PoolInner::new(conf.clone());
    let sender = address(1);
    let mut po1 = create_op(sender, 0, 10);
    po1.valid_time_range.valid_until = Timestamp::from(1);
    let _ = pool.add_operation(po1.clone(), None).unwrap();

    let res = pool.remove_expired(Timestamp::from(2));
    assert_eq!(res.len(), 1);
    assert_eq!(res[0].0, po1.uo.op_hash(conf.entry_point, conf.chain_id));
    assert_eq!(res[0].1, Timestamp::from(1));
}

#[test]
fn test_multiple_expired() {
    let conf = conf();
    let mut pool = PoolInner::new(conf.clone());

    let mut po1 = create_op(address(1), 0, 10);
    po1.valid_time_range.valid_until = 5.into();
    let _ = pool.add_operation(po1.clone(), None).unwrap();

    let mut po2 = create_op(address(2), 0, 10);
    po2.valid_time_range.valid_until = 10.into();
    let _ = pool.add_operation(po2.clone(), None).unwrap();

    let mut po3 = create_op(address(3), 0, 10);
    po3.valid_time_range.valid_until = 9.into();
    let _ = pool.add_operation(po3.clone(), None).unwrap();

    let res = pool.remove_expired(10.into());
    assert_eq!(res.len(), 2);
    assert!(res.contains(&(po1.uo.op_hash(conf.entry_point, conf.chain_id), 5.into())));
    assert!(res.contains(&(po3.uo.op_hash(conf.entry_point, conf.chain_id), 9.into())));
    assert_eq!(pool.len(), 1);
    check_map_entry(best_at(&pool, 0), Some(&po2));
}

// The cases that the documentation of the pool names.

#[test]
fn new_pool_is_empty() {
    let pool = PoolInner::new(conf());
    assert_eq!(pool.len(), 0);
    assert_eq!(pool.mined_len(), 0);
    assert_eq!(pool.pool_size(), 0);
    assert_eq!(pool.cache_size(), 0);
    assert!(pool.best_operations().is_empty());
    assert!(pool.paymaster_addresses().is_empty());
    assert_eq!(pool.address_count(&address(1)), 0);
    assert_eq!(pool.config(), conf());
}

#[test]
fn config_from_pool_config() {
    let config = PoolConfig {
        entry_point: address(7),
        chain_id: 5,
        max_size_of_pool_bytes: 1000,
        min_replacement_fee_increase_percentage: 12,
        throttled_entity_mempool_count: 3,
        throttled_entity_live_blocks: 9,
        paymaster_tracking_enabled: false,
    };
    let inner = PoolInnerConfig::from(config);
    assert_eq!(inner.entry_point, address(7));
    assert_eq!(inner.chain_id, 5);
    assert_eq!(inner.max_size_of_pool_bytes, 1000);
    assert_eq!(inner.min_replacement_fee_increase_percentage, 12);
    assert_eq!(inner.throttled_entity_mempool_count, 3);
    assert_eq!(inner.throttled_entity_live_blocks, 9);
    assert!(!inner.paymaster_tracking_enabled);
}

#[test]
fn replacement_fee_gate() {
    let mut pool = PoolInner::new(conf());
    let sender = address(1);
    let mut op1 = create_op(sender, 0, 100);
    op1.uo.max_priority_fee_per_gas = 10.into();
    pool.add_operation(op1.clone(), None).unwrap();

    let mut op3 = create_op(sender, 0, 109);
    op3.uo.max_priority_fee_per_gas = 11.into();
    assert_eq!(
        pool.add_operation(op3.clone(), None),
        Err(MempoolError::ReplacementUnderpriced(10.into(), 100.into()))
    );
    check_map_entry(pool.get_operation_by_id(op1.uo.id()), Some(&op1));

    let mut op2 = create_op(sender, 0, 110);
    op2.uo.max_priority_fee_per_gas = 11.into();
    let hash2 = pool.add_operation(op2.clone(), None).unwrap();
    assert_eq!(pool.len(), 1);
    check_map_entry(pool.get_operation_by_hash(hash2), Some(&op2));
    check_map_entry(pool.get_operation_by_id(op2.uo.id()), Some(&op2));
    check_map_entry(pool.get_operation_by_hash(hash_of(&pool, &op1)), None);

    // against the operation that is pooled now, the fees to beat are its own
    assert_eq!(
        pool.add_operation(op3, None),
        Err(MempoolError::ReplacementUnderpriced(11.into(), 110.into()))
    );
    assert_eq!(pool.len(), 1);
}

#[test]
fn replacement_needs_both_fees() {
    let mut pool = PoolInner::new(conf());
    let sender = address(1);
    let mut op1 = create_op(sender, 0, 100);
    op1.uo.max_priority_fee_per_gas = 10.into();
    pool.add_operation(op1, None).unwrap();

    // the fee is raised enough, the priority fee is not
    let mut low_priority = create_op(sender, 0, 110);
    low_priority.uo.max_priority_fee_per_gas = 10.into();
    assert_eq!(
        pool.add_operation(low_priority, None),
        Err(MempoolError::ReplacementUnderpriced(10.into(), 100.into()))
    );
    // 10 % of 15 is 1.5, which rounds up: 17 is needed
    let mut pool = PoolInner::new(conf());
    let mut base = create_op(sender, 0, 15);
    base.uo.max_priority_fee_per_gas = 0.into();
    pool.add_operation(base, None).unwrap();
    assert_eq!(
        pool.add_operation(create_op(sender, 0, 16), None),
        Err(MempoolError::ReplacementUnderpriced(0.into(), 15.into()))
    );
    assert!(pool.add_operation(create_op(sender, 0, 17), None).is_ok());
}

#[test]
fn check_replacement_cases() {
    let mut pool = PoolInner::new(conf());
    let op = create_op(address(1), 0, 100);
    assert_eq!(pool.check_replacement(&op.uo), Ok(None));
    let hash = pool.add_operation(op.clone(), None).unwrap();
    assert_eq!(pool.check_replacement(&op.uo), Err(MempoolError::OperationAlreadyKnown));
    let better = create_op(address(1), 0, 110);
    assert_eq!(pool.check_replacement(&better.uo), Ok(Some(hash)));
    let worse = create_op(address(1), 0, 109);
    assert_eq!(
        pool.check_replacement(&worse.uo),
        Err(MempoolError::ReplacementUnderpriced(0.into(), 100.into()))
    );
    // under a hash that the caller gives
    let given = H256::from_low_u64_be(77);
    assert_eq!(pool.check_replacement_by_hash(&better.uo, given), Ok(Some(hash)));
    assert_eq!(
        pool.check_replacement_by_hash(&better.uo, hash),
        Err(MempoolError::OperationAlreadyKnown)
    );
    assert_eq!(pool.check_replacement_by_hash(&create_op(address(2), 0, 1).uo, given), Ok(None));
}

#[test]
fn add_by_hash_uses_the_hash_given() {
    let mut pool = PoolInner::new(conf());
    let op = create_op(address(1), 0, 5);
    let given = H256::from_low_u64_be(42);
    assert_eq!(pool.add_operation_by_hash(op.clone(), given, None), Ok(given));
    check_map_entry(pool.get_operation_by_hash(given), Some(&op));
    check_map_entry(pool.get_operation_by_hash(hash_of(&pool, &op)), None);
    assert_eq!(
        pool.add_operation_by_hash(create_op(address(2), 0, 5), given, None),
        Err(MempoolError::OperationAlreadyKnown)
    );
}

#[test]
fn ordering_tie_break() {
    let mut pool = PoolInner::new(conf());
    let a = create_op(address(1), 0, 5);
    let b = create_op(address(2), 0, 5);
    let c = create_op(address(3), 0, 5);
    for op in [&a, &b, &c] {
        pool.add_operation(op.clone(), None).unwrap();
    }
    let best = pool.best_operations();
    assert_eq!(best.len(), 3);
    assert_eq!(*best[0], a);
    assert_eq!(*best[1], b);
    assert_eq!(*best[2], c);

    let d = create_op(address(4), 0, 6);
    pool.add_operation(d.clone(), None).unwrap();
    let best = pool.best_operations();
    assert_eq!(best.len(), 4);
    assert_eq!(*best[0], d);
    assert_eq!(*best[1], a);
    assert_eq!(*best[2], b);
    assert_eq!(*best[3], c);
}

#[test]
fn ordered_operation_order() {
    let high = OrderedPoolOperation { po: Arc::new(create_op(address(1), 0, 9)), submission_id: 7 };
    let low = OrderedPoolOperation { po: Arc::new(create_op(address(2), 0, 3)), submission_id: 1 };
    let low_later =
        OrderedPoolOperation { po: Arc::new(create_op(address(3), 0, 3)), submission_id: 2 };
    assert_eq!(high.cmp(&low), std::cmp::Ordering::Less);
    assert_eq!(low.cmp(&high), std::cmp::Ordering::Greater);
    assert_eq!(low.cmp(&low_later), std::cmp::Ordering::Less);
    assert_eq!(low_later.cmp(&low), std::cmp::Ordering::Greater);
    assert_eq!(low.cmp(&low), std::cmp::Ordering::Equal);
    assert!(high.is_before(&low));
    assert!(!low.is_before(&high));
    assert!(low.is_before(&low_later));
    assert!(!low.is_before(&low));
    assert_eq!(high.uo().max_fee_per_gas, 9.into());
}

#[test]
fn mem_size_counts_the_bytes() {
    let plain = create_op(address(1), 0, 1);
    assert_eq!(plain.uo.heap_size(), 0);
    assert_eq!(plain.mem_size(), std::mem::size_of::<PoolOperation>());
    let ordered = OrderedPoolOperation { po: Arc::new(plain.clone()), submission_id: 0 };
    assert_eq!(
        ordered.mem_size(),
        std::mem::size_of::<OrderedPoolOperation>() + std::mem::size_of::<PoolOperation>()
    );
    let mut big = plain;
    big.uo.call_data = vec![0u8; 100];
    big.uo.signature = vec![1u8; 65];
    big.uo.init_code = vec![2u8; 20];
    big.uo.paymaster_and_data = vec![3u8; 7];
    assert_eq!(big.uo.heap_size(), 192);
    assert_eq!(big.mem_size(), std::mem::size_of::<PoolOperation>() + 192);
    assert_eq!(
        OrderedPoolOperation { po: Arc::new(big), submission_id: 0 }.mem_size(),
        mem_size_of_ordered_pool_op() + 192
    );
}

#[test]
fn eviction_on_full_pool() {
    let args = conf();
    let mut pool = PoolInner::new(args);
    let mut ops = vec![];
    for i in 0..20 {
        let op = create_op(address(100 + i as u64), i, i + 1);
        pool.add_operation(op.clone(), None).unwrap();
        ops.push(op);
    }
    assert_eq!(pool.len(), 20);
    assert_eq!(pool.pool_size(), 20 * mem_size_of_ordered_pool_op() as i128);
    let before: Vec<PoolOperation> = pool.best_operations().iter().map(|op| (**op).clone()).collect();

    // a newcomer that ties with the worst comes in last, and leaves at once
    let tied = create_op(address(200), 0, 1);
    assert_eq!(pool.add_operation(tied.clone(), None), Err(MempoolError::DiscardedOnInsert));
    let after: Vec<PoolOperation> = pool.best_operations().iter().map(|op| (**op).clone()).collect();
    assert_eq!(before, after);
    assert_eq!(pool.pool_size(), 20 * mem_size_of_ordered_pool_op() as i128);
    check_map_entry(pool.get_operation_by_hash(hash_of(&pool, &tied)), None);
    assert_eq!(pool.address_count(&address(200)), 0);

    // a newcomer with the fee 2 is not the worst: the operation with the fee
    // 1 leaves, and the newcomer stands behind the one that tied with it
    let second = create_op(address(201), 0, 2);
    assert!(pool.add_operation(second.clone(), None).is_ok());
    assert_eq!(pool.len(), 20);
    check_map_entry(pool.get_operation_by_hash(hash_of(&pool, &ops[0])), None);
    check_map_entry(best_at(&pool, 19), Some(&second));
    check_map_entry(best_at(&pool, 18), Some(&ops[1]));
    assert!(pool.pool_size() <= pool.config().max_size_of_pool_bytes as i128);
}

#[test]
fn discard_releases_the_paymaster() {
    let mut config = conf();
    config.max_size_of_pool_bytes = mem_size_of_ordered_pool_op() + 10;
    let mut pool = PoolInner::new(config);
    let paymaster = address(9);
    pool.add_operation(create_op(address(1), 0, 5), None).unwrap();

    let mut newcomer = with_paymaster(create_op(address(2), 0, 1), paymaster);
    newcomer.uo.call_gas_limit = 10.into();
    let meta = PaymasterMetadata {
        address: paymaster,
        confirmed_balance: 1000.into(),
        pending_balance: 1000.into(),
    };
    assert_eq!(pool.add_operation(newcomer, Some(meta)), Err(MempoolError::DiscardedOnInsert));
    assert_eq!(pool.len(), 1);
    // the account was opened, and nothing is held against it
    let known = pool.paymaster_metadata(paymaster).unwrap();
    assert_eq!(known.confirmed_balance, 1000.into());
    assert_eq!(known.pending_balance, 1000.into());
}

#[test]
fn throttle_entity_keeps_the_best() {
    let mut config = conf();
    config.throttled_entity_mempool_count = 2;
    config.throttled_entity_live_blocks = 10;
    let mut pool = PoolInner::new(config);
    let paymaster = address(9);
    let blocks = [80u64, 85, 92, 98, 99];
    let mut ops = vec![];
    for (i, block) in blocks.iter().enumerate() {
        let mut op = with_paymaster(create_op(address(1 + i as u64), 0, 10 + i), paymaster);
        op.sim_block_number = *block;
        pool.add_operation(op.clone(), None).unwrap();
        ops.push(op);
    }
    let other = create_op(address(50), 0, 1);
    pool.add_operation(other.clone(), None).unwrap();

    let removed = pool.throttle_entity(Entity::paymaster(paymaster), 100);
    // best first: 99 and 98 stay, 92 is one too many, 85 and 80 are too old
    assert_eq!(
        removed,
        vec![hash_of(&pool, &ops[2]), hash_of(&pool, &ops[1]), hash_of(&pool, &ops[0])]
    );
    assert_eq!(pool.len(), 3);
    check_map_entry(best_at(&pool, 0), Some(&ops[4]));
    check_map_entry(best_at(&pool, 1), Some(&ops[3]));
    check_map_entry(best_at(&pool, 2), Some(&other));
    assert_eq!(pool.address_count(&paymaster), 2);
}

#[test]
fn throttle_entity_old_operations_take_no_place() {
    let mut config = conf();
    config.throttled_entity_mempool_count = 1;
    config.throttled_entity_live_blocks = 10;
    let mut pool = PoolInner::new(config);
    let paymaster = address(9);
    let mut old = with_paymaster(create_op(address(1), 0, 20), paymaster);
    old.sim_block_number = 10;
    let mut fresh = with_paymaster(create_op(address(2), 0, 10), paymaster);
    fresh.sim_block_number = 95;
    let mut at_edge = with_paymaster(create_op(address(3), 0, 5), paymaster);
    at_edge.sim_block_number = 90;
    for op in [&old, &fresh, &at_edge] {
        pool.add_operation(op.clone(), None).unwrap();
    }
    let removed = pool.throttle_entity(Entity::paymaster(paymaster), 100);
    // 90 + 10 is not below 100, so the third is not too old, but one stays already
    assert_eq!(removed, vec![hash_of(&pool, &old), hash_of(&pool, &at_edge)]);
    assert_eq!(pool.len(), 1);
    check_map_entry(best_at(&pool, 0), Some(&fresh));
    // an entity that nothing declares
    assert!(pool.throttle_entity(Entity::factory(paymaster), 100).is_empty());
    assert_eq!(pool.len(), 1);
}

#[test]
fn remove_entity_returns_the_hashes() {
    let mut pool = PoolInner::new(conf());
    let paymaster = address(9);
    let a = with_paymaster(create_op(address(1), 0, 3), paymaster);
    let b = create_op(address(2), 0, 2);
    let c = with_paymaster(create_op(address(3), 0, 1), paymaster);
    for op in [&a, &b, &c] {
        pool.add_operation(op.clone(), None).unwrap();
    }
    let removed = pool.remove_entity(Entity::paymaster(paymaster));
    assert_eq!(removed, vec![hash_of(&pool, &a), hash_of(&pool, &c)]);
    assert_eq!(pool.len(), 1);
    check_map_entry(best_at(&pool, 0), Some(&b));
    assert_eq!(pool.pool_size(), mem_size_of_ordered_pool_op() as i128);
}

#[test]
fn indexes_agree_after_changes() {
    let mut pool = PoolInner::new(conf());
    let mut ops = vec![];
    for i in 0..6usize {
        let op = create_op(address(1 + i as u64), i, 10 + (i % 3));
        pool.add_operation(op.clone(), None).unwrap();
        ops.push(op);
    }
    pool.remove_operation_by_hash(hash_of(&pool, &ops[1]));
    let mined_op = mined(&pool, &ops[2], 0);
    pool.mine_operation(&mined_op, 5);
    let mined_op4 = mined(&pool, &ops[4], 0);
    pool.mine_operation(&mined_op4, 6);
    pool.unmine_operation(&mined_op);

    let best = pool.best_operations();
    assert_eq!(best.len(), pool.len());
    assert_eq!(best.len(), 4);
    let mut size = 0i128;
    for op in best.iter() {
        check_map_entry(pool.get_operation_by_hash(hash_of(&pool, op)), Some(op));
        check_map_entry(pool.get_operation_by_id(op.uo.id()), Some(op));
        size += OrderedPoolOperation { po: op.clone(), submission_id: 0 }.mem_size() as i128;
    }
    assert_eq!(pool.pool_size(), size);
    for gone in [&ops[1], &ops[4]] {
        check_map_entry(pool.get_operation_by_hash(hash_of(&pool, gone)), None);
        check_map_entry(pool.get_operation_by_id(gone.uo.id()), None);
        assert_eq!(pool.address_count(&gone.uo.sender), 0);
    }
    for kept in [&ops[0], &ops[2], &ops[3], &ops[5]] {
        assert_eq!(pool.address_count(&kept.uo.sender), 1);
    }
}

#[test]
fn unmined_operation_goes_back_to_its_place() {
    let mut pool = PoolInner::new(conf());
    let a = create_op(address(1), 0, 5);
    let b = create_op(address(2), 0, 5);
    let c = create_op(address(3), 0, 5);
    for op in [&a, &b, &c] {
        pool.add_operation(op.clone(), None).unwrap();
    }
    let mined_a = mined(&pool, &a, 0);
    let out = pool.mine_operation(&mined_a, 10);
    check_map_entry(out, Some(&a));
    assert_eq!(pool.len(), 2);
    assert_eq!(pool.mined_len(), 1);
    assert_eq!(pool.cache_size(), mem_size_of_ordered_pool_op() as i128);
    check_map_entry(best_at(&pool, 0), Some(&b));

    let back = pool.unmine_operation(&mined_a);
    check_map_entry(back, Some(&a));
    assert_eq!(pool.mined_len(), 0);
    assert_eq!(pool.cache_size(), 0);
    // it keeps the number under which it came in, so it is first again
    check_map_entry(best_at(&pool, 0), Some(&a));
    check_map_entry(best_at(&pool, 1), Some(&b));
    check_map_entry(best_at(&pool, 2), Some(&c));

    // nothing is kept under that hash any more
    assert!(pool.unmine_operation(&mined_a).is_none());
    assert_eq!(pool.len(), 3);
}

#[test]
fn reorg_round_trip() {
    let mut round = PoolInner::new(conf());
    let mut direct = PoolInner::new(conf());
    let ops = vec![
        create_op(address(1), 0, 7),
        create_op(address(2), 0, 5),
        create_op(address(3), 0, 5),
    ];
    for op in ops.iter() {
        round.add_operation(op.clone(), None).unwrap();
        direct.add_operation(op.clone(), None).unwrap();
    }
    let mined_op = mined(&round, &ops[1], 3);
    round.mine_operation(&mined_op, 10);
    round.unmine_operation(&mined_op);
    round.mine_operation(&mined_op, 12);
    direct.mine_operation(&mined_op, 12);

    assert_eq!(round.best_operations(), direct.best_operations());
    assert_eq!(round.len(), 2);
    assert_eq!(round.mined_len(), direct.mined_len());
    assert_eq!(round.pool_size(), direct.pool_size());
    assert_eq!(round.cache_size(), direct.cache_size());
    // both forget the operation at the same block
    round.forget_mined_operations_before_block(12);
    direct.forget_mined_operations_before_block(12);
    assert_eq!(round.mined_len(), 1);
    assert_eq!(direct.mined_len(), 1);
    round.forget_mined_operations_before_block(13);
    direct.forget_mined_operations_before_block(13);
    assert_eq!(round.mined_len(), 0);
    assert_eq!(direct.mined_len(), 0);
}

#[test]
fn mine_unknown_operation() {
    let mut pool = PoolInner::new(conf());
    let a = create_op(address(1), 0, 5);
    pool.add_operation(a.clone(), None).unwrap();
    let stranger = create_op(address(2), 0, 5);
    assert!(pool.mine_operation(&mined(&pool, &stranger, 0), 1).is_none());
    assert_eq!(pool.len(), 1);
    assert_eq!(pool.mined_len(), 0);
}

#[test]
fn forget_mined_operations() {
    let mut pool = PoolInner::new(conf());
    let ops: Vec<PoolOperation> =
        (0..4usize).map(|i| create_op(address(1 + i as u64), 0, 5 + i)).collect();
    for op in ops.iter() {
        pool.add_operation(op.clone(), None).unwrap();
    }
    for (op, block) in ops.iter().zip([7u64, 5, 9, 5]) {
        pool.mine_operation(&mined(&pool, op, 0), block);
    }
    assert_eq!(pool.mined_len(), 4);
    assert_eq!(pool.cache_size(), 4 * mem_size_of_ordered_pool_op() as i128);
    pool.forget_mined_operations_before_block(5);
    assert_eq!(pool.mined_len(), 4);
    pool.forget_mined_operations_before_block(7);
    assert_eq!(pool.mined_len(), 2);
    assert_eq!(pool.cache_size(), 2 * mem_size_of_ordered_pool_op() as i128);
    // those mined at 5 are gone, the others can still come back
    assert!(pool.unmine_operation(&mined(&pool, &ops[1], 0)).is_none());
    check_map_entry(pool.unmine_operation(&mined(&pool, &ops[0], 0)), Some(&ops[0]));
    pool.forget_mined_operations_before_block(100);
    assert_eq!(pool.mined_len(), 0);
    assert_eq!(pool.cache_size(), 0);
    assert_eq!(pool.len(), 1);
}

#[test]
fn multiple_roles_violation() {
    let mut pool = PoolInner::new(conf());
    let sender = address(1);
    let paymaster = address(2);
    let factory = address(3);
    let mut pooled = with_paymaster(create_op(sender, 0, 5), paymaster);
    pooled.uo.init_code = factory.to_bytes();
    pool.add_operation(pooled, None).unwrap();

    // a fresh sender with fresh entities
    let fine = with_paymaster(create_op(address(10), 0, 5), address(11));
    assert_eq!(pool.check_multiple_roles_violation(&fine.uo), Ok(()));
    // the same paymaster again, and the same sender again
    assert_eq!(
        pool.check_multiple_roles_violation(&with_paymaster(create_op(sender, 1, 5), paymaster).uo),
        Ok(())
    );
    // the sender is the paymaster of a pooled operation
    assert_eq!(
        pool.check_multiple_roles_violation(&create_op(paymaster, 0, 5).uo),
        Err(MempoolError::SenderAddressUsedAsAlternateEntity(paymaster))
    );
    // the sender is the factory of a pooled operation
    assert_eq!(
        pool.check_multiple_roles_violation(&create_op(factory, 0, 5).uo),
        Err(MempoolError::SenderAddressUsedAsAlternateEntity(factory))
    );
    // the paymaster is the sender of a pooled operation
    assert_eq!(
        pool.check_multiple_roles_violation(&with_paymaster(create_op(address(10), 0, 5), sender).uo),
        Err(MempoolError::MultipleRolesViolation(Entity::paymaster(sender)))
    );
    // so is the factory; the paymaster is named where both are
    let mut both = with_paymaster(create_op(address(10), 0, 5), sender);
    both.uo.init_code = sender.to_bytes();
    assert_eq!(
        pool.check_multiple_roles_violation(&both.uo),
        Err(MempoolError::MultipleRolesViolation(Entity::paymaster(sender)))
    );
    let mut only_factory = create_op(address(10), 0, 5);
    only_factory.uo.init_code = sender.to_bytes();
    assert_eq!(
        pool.check_multiple_roles_violation(&only_factory.uo),
        Err(MempoolError::MultipleRolesViolation(Entity::factory(sender)))
    );
}

#[test]
fn associated_storage() {
    let mut pool = PoolInner::new(conf());
    let sender = address(1);
    pool.add_operation(create_op(sender, 0, 5), None).unwrap();

    let newcomer = with_paymaster(create_op(address(10), 0, 5), sender);
    assert_eq!(
        pool.check_associated_storage(&vec![address(7), sender], &newcomer.uo),
        Err(MempoolError::AssociatedStorageIsAlternateSender)
    );
    // the storage of that sender is not touched
    assert_eq!(pool.check_associated_storage(&vec![address(7)], &newcomer.uo), Ok(()));
    assert_eq!(pool.check_associated_storage(&vec![], &newcomer.uo), Ok(()));
    // it is touched, but the sender is no entity of the newcomer
    let plain = create_op(address(10), 0, 5);
    assert_eq!(pool.check_associated_storage(&vec![sender], &plain.uo), Ok(()));
    // an operation may touch the storage of its own sender
    assert_eq!(
        pool.check_associated_storage(&vec![sender], &create_op(sender, 1, 5).uo),
        Ok(())
    );
    // the factory counts as the paymaster does
    let mut made = create_op(address(10), 0, 5);
    made.uo.init_code = sender.to_bytes();
    assert_eq!(
        pool.check_associated_storage(&vec![sender], &made.uo),
        Err(MempoolError::AssociatedStorageIsAlternateSender)
    );
}

#[test]
fn paymaster_balance_too_low() {
    let mut pool = PoolInner::new(conf());
    let paymaster = address(9);
    let meta = PaymasterMetadata {
        address: paymaster,
        confirmed_balance: 100.into(),
        pending_balance: 100.into(),
    };
    // each operation may cost (10 + 3 * 0 + 0) * 6 = 60
    let mut first = with_paymaster(create_op(address(1), 0, 6), paymaster);
    first.uo.call_gas_limit = 10.into();
    assert_eq!(first.uo.max_gas_cost(), 60.into());
    let mut second = with_paymaster(create_op(address(2), 0, 6), paymaster);
    second.uo.call_gas_limit = 10.into();

    pool.add_operation(first.clone(), Some(meta)).unwrap();
    assert!(pool.paymaster_exists(paymaster));
    assert_eq!(pool.paymaster_addresses(), vec![paymaster]);
    assert_eq!(
        pool.paymaster_metadata(paymaster),
        Some(PaymasterMetadata {
            address: paymaster,
            confirmed_balance: 100.into(),
            pending_balance: 40.into(),
        })
    );
    assert_eq!(
        pool.add_operation(second.clone(), Some(meta)),
        Err(MempoolError::PaymasterBalanceTooLow)
    );
    assert_eq!(pool.len(), 1);

    // the reservation goes with the operation
    pool.remove_operation_by_hash(hash_of(&pool, &first));
    assert_eq!(pool.paymaster_metadata(paymaster).unwrap().pending_balance, 100.into());
    assert!(pool.add_operation(second, Some(meta)).is_ok());
}

#[test]
fn paymaster_tracking_switched_off() {
    let mut config = conf();
    config.paymaster_tracking_enabled = false;
    let mut pool = PoolInner::new(config);
    let paymaster = address(9);
    let meta = PaymasterMetadata {
        address: paymaster,
        confirmed_balance: 1.into(),
        pending_balance: 1.into(),
    };
    let mut op = with_paymaster(create_op(address(1), 0, 6), paymaster);
    op.uo.call_gas_limit = 10.into();
    assert!(pool.add_operation(op, Some(meta)).is_ok());
    assert!(!pool.paymaster_exists(paymaster));
    assert_eq!(pool.paymaster_metadata(paymaster), None);
    assert!(pool.paymaster_addresses().is_empty());

    pool.set_tracking(true);
    let mut next = with_paymaster(create_op(address(2), 0, 6), paymaster);
    next.uo.call_gas_limit = 10.into();
    assert_eq!(pool.add_operation(next, Some(meta)), Err(MempoolError::PaymasterBalanceTooLow));
}

#[test]
fn paymaster_balances_follow_the_chain() {
    let mut pool = PoolInner::new(conf());
    let paymaster = address(9);
    let meta = PaymasterMetadata {
        address: paymaster,
        confirmed_balance: 100.into(),
        pending_balance: 100.into(),
    };
    let mut op = with_paymaster(create_op(address(1), 0, 6), paymaster);
    op.uo.call_gas_limit = 10.into();
    pool.add_operation(op.clone(), Some(meta)).unwrap();

    let deposit = BalanceUpdate {
        address: paymaster,
        entry_point: pool.config().entry_point,
        amount: 50.into(),
        is_addition: true,
    };
    let withdrawal = BalanceUpdate { amount: 20.into(), is_addition: false, ..deposit };
    pool.update_paymaster_balances_after_update(&vec![deposit, withdrawal], &vec![]);
    let known = pool.paymaster_metadata(paymaster).unwrap();
    assert_eq!(known.confirmed_balance, 130.into());
    assert_eq!(known.pending_balance, 70.into());
    // a deposit whose block is undone is taken back
    pool.update_paymaster_balances_after_update(&vec![], &vec![deposit]);
    assert_eq!(pool.paymaster_metadata(paymaster).unwrap().confirmed_balance, 80.into());
    // a withdrawal of more than there is leaves nothing
    let drain = BalanceUpdate { amount: 1000.into(), is_addition: false, ..deposit };
    pool.update_paymaster_balances_after_update(&vec![drain], &vec![]);
    let known = pool.paymaster_metadata(paymaster).unwrap();
    assert_eq!(known.confirmed_balance, 0.into());
    assert_eq!(known.pending_balance, 0.into());

    pool.set_confirmed_paymaster_balances(&vec![paymaster, address(77)], &vec![500.into(), 9.into()]);
    assert_eq!(pool.paymaster_metadata(paymaster).unwrap().confirmed_balance, 500.into());
    assert!(!pool.paymaster_exists(address(77)));

    // mining settles the actual cost and gives the reservation back
    pool.mine_operation(&mined(&pool, &op, 45), 3);
    let known = pool.paymaster_metadata(paymaster).unwrap();
    assert_eq!(known.confirmed_balance, 455.into());
    assert_eq!(known.pending_balance, 455.into());
    // undoing the block gives the cost back and makes the reservation again
    pool.unmine_operation(&mined(&pool, &op, 45));
    let known = pool.paymaster_metadata(paymaster).unwrap();
    assert_eq!(known.confirmed_balance, 500.into());
    assert_eq!(known.pending_balance, 440.into());
    assert_eq!(pool.len(), 1);
}

#[test]
fn clear_state() {
    let mut pool = PoolInner::new(conf());
    let paymaster = address(9);
    let meta = PaymasterMetadata {
        address: paymaster,
        confirmed_balance: 100.into(),
        pending_balance: 100.into(),
    };
    let a = with_paymaster(create_op(address(1), 0, 6), paymaster);
    let b = create_op(address(2), 0, 6);
    pool.add_operation(a, Some(meta)).unwrap();
    pool.add_operation(b.clone(), None).unwrap();
    pool.mine_operation(&mined(&pool, &b, 0), 1);

    pool.clear(false, false);
    assert_eq!(pool.len(), 1);
    assert_eq!(pool.mined_len(), 1);
    assert!(pool.paymaster_exists(paymaster));

    pool.clear(true, false);
    assert_eq!(pool.len(), 0);
    assert_eq!(pool.mined_len(), 0);
    assert_eq!(pool.pool_size(), 0);
    assert_eq!(pool.cache_size(), 0);
    assert_eq!(pool.address_count(&address(1)), 0);
    assert!(pool.paymaster_exists(paymaster));

    pool.clear(false, true);
    assert!(!pool.paymaster_exists(paymaster));
    assert!(pool.paymaster_addresses().is_empty());
}

#[test]
fn unmine_gives_back_only_what_was_paid() {
    let mut pool = PoolInner::new(conf());
    let paymaster = address(9);
    let meta = PaymasterMetadata {
        address: paymaster,
        confirmed_balance: 100.into(),
        pending_balance: 100.into(),
    };
    let mut backed = with_paymaster(create_op(address(1), 0, 6), paymaster);
    backed.uo.call_gas_limit = 10.into();
    pool.add_operation(backed.clone(), Some(meta)).unwrap();
    // the second names the paymaster, and nothing is held for it
    let unbacked = with_paymaster(create_op(address(2), 0, 6), paymaster);
    pool.add_operation(unbacked.clone(), None).unwrap();
    assert_eq!(pool.paymaster_metadata(paymaster).unwrap().pending_balance, 40.into());

    pool.mine_operation(&mined(&pool, &unbacked, 30), 3);
    assert_eq!(pool.paymaster_metadata(paymaster).unwrap().confirmed_balance, 100.into());
    pool.unmine_operation(&mined(&pool, &unbacked, 30));
    assert_eq!(pool.paymaster_metadata(paymaster).unwrap().confirmed_balance, 100.into());
    assert_eq!(pool.len(), 2);

    pool.mine_operation(&mined(&pool, &backed, 30), 4);
    let known = pool.paymaster_metadata(paymaster).unwrap();
    assert_eq!(known.confirmed_balance, 70.into());
    assert_eq!(known.pending_balance, 70.into());
    pool.unmine_operation(&mined(&pool, &backed, 30));
    assert_eq!(pool.paymaster_metadata(paymaster).unwrap().confirmed_balance, 100.into());
}

#[test]
fn submission_ids_run_out() {
    let mut pool = PoolInner::starting_at(conf(), u64::MAX - 1);
    let first = create_op(address(1), 0, 5);
    assert!(pool.add_operation(first.clone(), None).is_ok());
    assert_eq!(
        pool.add_operation(create_op(address(2), 0, 5), None),
        Err(MempoolError::Other(OtherError::SubmissionIdsExhausted))
    );
    assert_eq!(pool.len(), 1);
    // what is pooled can still leave and come back
    let mined_op = mined(&pool, &first, 0);
    pool.mine_operation(&mined_op, 1);
    pool.unmine_operation(&mined_op);
    check_map_entry(best_at(&pool, 0), Some(&first));
}
