use bundler_core::address_counts::AddressCounts;
use bundler_core::chain::MinedOp;
use bundler_core::entity::{Entity, EntityCounter, EntityInfo, EntityInfos, EntityType};
use bundler_core::error::MempoolError;
use bundler_core::paymaster::{PaymasterMetadata, PaymasterTracker};
use bundler_core::primitives::{Address, H256, U256};
use bundler_core::size::SizeTracker;
use bundler_core::user_operation::{PoolOperation, UserOperation, UserOperationId};

fn address(n: u64) -> Address {
    Address::from_low_u64_be(n)
}

#[test]
fn size_tracker_counts() {
    let mut size = SizeTracker::new();
    assert_eq!(size.get(), 0);
    assert!(!size.exceeds(0));
    size.add(10);
    size.add(usize::MAX);
    assert_eq!(size.get(), 10 + usize::MAX as i128);
    assert!(size.exceeds(usize::MAX));
    size.sub(usize::MAX);
    assert_eq!(size.get(), 10);
    assert!(size.exceeds(9));
    assert!(!size.exceeds(10));
    // the count may go below zero, and is then above no bound
    size.sub(25);
    assert_eq!(size.get(), -15);
    assert!(!size.exceeds(0));
    size.add(15);
    assert_eq!(size, SizeTracker::new());
}

#[test]
fn entity_counter_counts() {
    let mut counter = EntityCounter::new();
    assert_eq!(counter.total(), 0);
    assert!(!counter.includes_non_sender());
    counter.increment_entity_count(EntityType::Account);
    counter.increment_entity_count(EntityType::Account);
    assert_eq!(counter.sender(), 2);
    assert_eq!(counter.get(EntityType::Account), 2);
    assert!(!counter.includes_non_sender());
    counter.increment_entity_count(EntityType::Factory);
    assert!(counter.includes_non_sender());
    assert_eq!(counter.get(EntityType::Factory), 1);
    assert_eq!(counter.get(EntityType::Paymaster), 0);
    assert_eq!(counter.total(), 3);
    counter.decrement_entity_count(EntityType::Factory);
    assert!(!counter.includes_non_sender());
    // a count at zero stays there
    counter.decrement_entity_count(EntityType::Factory);
    counter.decrement_entity_count(EntityType::Aggregator);
    assert_eq!(counter.get(EntityType::Factory), 0);
    assert_eq!(counter.get(EntityType::Aggregator), 0);
    assert_eq!(counter.total(), 2);
    counter.increment_entity_count(EntityType::Paymaster);
    counter.increment_entity_count(EntityType::Aggregator);
    assert_eq!(counter.total(), 4);
    assert!(counter.includes_non_sender());
}

#[test]
fn address_counts_drop_what_is_unused() {
    let mut counts = AddressCounts::new();
    assert_eq!(counts.get(&address(1)), None);
    assert_eq!(counts.total(&address(1)), 0);
    counts.increment(address(1), EntityType::Account);
    counts.increment(address(1), EntityType::Paymaster);
    counts.increment(address(2), EntityType::Account);
    counts.add_use(Some(address(3)), EntityType::Factory);
    counts.add_use(None, EntityType::Factory);
    assert_eq!(counts.total(&address(1)), 2);
    assert_eq!(counts.total(&address(2)), 1);
    assert_eq!(counts.total(&address(3)), 1);
    assert_eq!(counts.get(&address(1)).unwrap().sender(), 1);
    assert!(counts.get(&address(1)).unwrap().includes_non_sender());

    counts.decrement(address(1), EntityType::Account);
    assert_eq!(counts.total(&address(1)), 1);
    assert!(counts.get(&address(1)).is_some());
    counts.drop_use(Some(address(1)), EntityType::Paymaster);
    assert_eq!(counts.get(&address(1)), None);
    assert_eq!(counts.total(&address(2)), 1);
    assert_eq!(counts.total(&address(3)), 1);
    // what is not counted cannot be counted down
    counts.decrement(address(9), EntityType::Account);
    counts.drop_use(None, EntityType::Account);
    counts.decrement(address(2), EntityType::Paymaster);
    assert_eq!(counts.total(&address(2)), 1);
    counts.clear();
    assert_eq!(counts.get(&address(2)), None);
    assert_eq!(counts.total(&address(3)), 0);
}

#[test]
fn entities_and_infos() {
    assert_eq!(Entity::account(address(1)), Entity::new(EntityType::Account, address(1)));
    assert_eq!(Entity::paymaster(address(1)).kind, EntityType::Paymaster);
    assert_eq!(Entity::aggregator(address(1)).kind, EntityType::Aggregator);
    assert_eq!(Entity::factory(address(1)).kind, EntityType::Factory);
    let infos = EntityInfos {
        factory: None,
        sender: EntityInfo { address: address(1), is_staked: true },
        paymaster: Some(EntityInfo { address: address(2), is_staked: false }),
        aggregator: None,
    };
    assert_eq!(infos.get(EntityType::Account), Some(infos.sender));
    assert_eq!(infos.get(EntityType::Paymaster), infos.paymaster);
    assert_eq!(infos.get(EntityType::Factory), None);
    assert_eq!(infos.get(EntityType::Aggregator), None);

    let mut op = PoolOperation {
        uo: UserOperation { sender: address(1), ..UserOperation::default() },
        entity_infos: infos,
        ..PoolOperation::default()
    };
    op.aggregator = Some(address(5));
    op.uo.init_code = address(6).to_bytes();
    assert!(op.contains_entity(&Entity::account(address(1))));
    assert!(op.contains_entity(&Entity::paymaster(address(2))));
    assert!(!op.contains_entity(&Entity::paymaster(address(1))));
    assert!(!op.contains_entity(&Entity::aggregator(address(5))));
    assert_eq!(op.entity_address(EntityType::Account), Some(address(1)));
    assert_eq!(op.entity_address(EntityType::Paymaster), None);
    assert_eq!(op.entity_address(EntityType::Aggregator), Some(address(5)));
    assert_eq!(op.entity_address(EntityType::Factory), Some(address(6)));
}

fn operation(sender: u64, nonce: u64, cost: u64) -> PoolOperation {
    PoolOperation {
        uo: UserOperation {
            sender: address(sender),
            nonce: nonce.into(),
            call_gas_limit: cost.into(),
            max_fee_per_gas: 1.into(),
            ..UserOperation::default()
        },
        ..PoolOperation::default()
    }
}

fn meta(paymaster: u64, balance: u64) -> PaymasterMetadata {
    PaymasterMetadata {
        address: address(paymaster),
        confirmed_balance: balance.into(),
        pending_balance: balance.into(),
    }
}

fn available(tracker: &PaymasterTracker, paymaster: u64) -> U256 {
    tracker.paymaster_metadata(address(paymaster)).unwrap().pending_balance
}

fn confirmed(tracker: &PaymasterTracker, paymaster: u64) -> U256 {
    tracker.paymaster_metadata(address(paymaster)).unwrap().confirmed_balance
}

#[test]
fn paymaster_reserves_and_releases() {
    let mut tracker = PaymasterTracker::new(true);
    assert!(!tracker.paymaster_exists(address(9)));
    assert_eq!(tracker.add_or_update_balance(&operation(1, 0, 60), &meta(9, 100)), Ok(()));
    assert!(tracker.paymaster_exists(address(9)));
    assert_eq!(available(&tracker, 9), 40.into());
    // the balance that is reported later does not count: the account is open
    assert_eq!(
        tracker.add_or_update_balance(&operation(2, 0, 41), &meta(9, 1000)),
        Err(MempoolError::PaymasterBalanceTooLow)
    );
    assert_eq!(available(&tracker, 9), 40.into());
    assert_eq!(tracker.add_or_update_balance(&operation(2, 0, 40), &meta(9, 1000)), Ok(()));
    assert_eq!(available(&tracker, 9), U256::zero());
    assert_eq!(confirmed(&tracker, 9), 100.into());

    assert_eq!(tracker.reserved_with(&operation(1, 0, 60).uo.id()), Some(address(9)));
    assert_eq!(tracker.reserved_with(&operation(3, 0, 60).uo.id()), None);
    tracker.remove_operation(&operation(1, 0, 60).uo.id());
    assert_eq!(available(&tracker, 9), 60.into());
    assert_eq!(tracker.reserved_with(&operation(1, 0, 60).uo.id()), None);
    // nothing is reserved for it any more
    tracker.remove_operation(&operation(1, 0, 60).uo.id());
    tracker.remove_operation(&UserOperationId { sender: address(5), nonce: 5.into() });
    assert_eq!(available(&tracker, 9), 60.into());
}

#[test]
fn paymaster_replacement_rolls_back_first() {
    let mut tracker = PaymasterTracker::new(true);
    tracker.add_or_update_balance(&operation(1, 0, 60), &meta(9, 100)).unwrap();
    // the same operation again, dearer: 60 is given back, then 90 is held
    assert_eq!(tracker.add_or_update_balance(&operation(1, 0, 90), &meta(9, 100)), Ok(()));
    assert_eq!(available(&tracker, 9), 10.into());
    // now with another paymaster
    assert_eq!(tracker.add_or_update_balance(&operation(1, 0, 5), &meta(8, 7)), Ok(()));
    assert_eq!(available(&tracker, 9), 100.into());
    assert_eq!(available(&tracker, 8), 2.into());
    assert_eq!(tracker.paymaster_addresses(), vec![address(9), address(8)]);
    // one that is too dear: the earlier reservation stays given back
    assert_eq!(
        tracker.add_or_update_balance(&operation(1, 0, 8), &meta(8, 7)),
        Err(MempoolError::PaymasterBalanceTooLow)
    );
    assert_eq!(available(&tracker, 8), 7.into());
}

#[test]
fn paymaster_switched_off_changes_nothing() {
    let mut tracker = PaymasterTracker::new(false);
    assert_eq!(tracker.add_or_update_balance(&operation(1, 0, 60), &meta(9, 1)), Ok(()));
    assert!(!tracker.paymaster_exists(address(9)));
    assert_eq!(tracker.paymaster_metadata(address(9)), None);
    assert!(tracker.paymaster_addresses().is_empty());
    tracker.set_paymaster_tracker(true);
    assert!(!tracker.paymaster_exists(address(9)));
    tracker.add_or_update_balance(&operation(1, 0, 1), &meta(9, 1)).unwrap();
    tracker.set_paymaster_tracker(false);
    assert!(!tracker.paymaster_exists(address(9)));
    assert_eq!(tracker.paymaster_metadata(address(9)), None);
    assert_eq!(tracker.paymaster_addresses(), vec![address(9)]);
}

#[test]
fn paymaster_mined_and_unmined() {
    let mut tracker = PaymasterTracker::new(true);
    let op = operation(1, 0, 60);
    tracker.add_or_update_balance(&op, &meta(9, 100)).unwrap();
    let mined = MinedOp {
        hash: H256::zero(),
        entry_point: address(0xe0),
        sender: op.uo.sender,
        nonce: op.uo.nonce,
        actual_gas_cost: 45.into(),
        paymaster: Some(address(9)),
    };
    tracker.update_paymaster_balance_from_mined_op(&mined);
    assert_eq!(confirmed(&tracker, 9), 55.into());
    assert_eq!(available(&tracker, 9), 55.into());
    // it is settled once
    tracker.update_paymaster_balance_from_mined_op(&mined);
    assert_eq!(confirmed(&tracker, 9), 55.into());
    tracker.unmine_actual_cost(&address(9), 45.into());
    assert_eq!(confirmed(&tracker, 9), 100.into());
    tracker.unmine_actual_cost(&address(4), 45.into());
    assert!(!tracker.paymaster_exists(address(4)));

    tracker.update_paymaster_balance_from_event(address(9), 1.into(), true);
    assert_eq!(confirmed(&tracker, 9), 101.into());
    tracker.update_paymaster_balance_from_event(address(9), 2.into(), false);
    assert_eq!(confirmed(&tracker, 9), 99.into());
    tracker.update_paymaster_balance_from_event(address(9), U256::max_value(), true);
    assert_eq!(confirmed(&tracker, 9), U256::max_value());
    tracker.update_paymaster_balance_from_event(address(9), U256::max_value(), false);
    assert_eq!(confirmed(&tracker, 9), U256::zero());

    // what is pending may be more than what is confirmed: nothing is left then
    tracker.set_confirmed_balances(&vec![address(9)], &vec![100.into()]);
    tracker.add_or_update_balance(&operation(2, 0, 70), &meta(9, 0)).unwrap();
    tracker.set_confirmed_balances(&vec![address(9), address(3)], &vec![50.into(), 1.into()]);
    assert_eq!(confirmed(&tracker, 9), 50.into());
    assert_eq!(available(&tracker, 9), U256::zero());
    assert_eq!(
        tracker.add_or_update_balance(&operation(3, 0, 1), &meta(9, 0)),
        Err(MempoolError::PaymasterBalanceTooLow)
    );
    tracker.clear();
    assert!(!tracker.paymaster_exists(address(9)));
}
