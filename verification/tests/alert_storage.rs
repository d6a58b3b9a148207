use txwatch_registry::address::Address;
use txwatch_registry::alert_registry::storage;
use txwatch_registry::alert_registry::types::{DEFAULT_TTL, EXTENSION_TTL, MAX_BATCH_SIZE};
use txwatch_registry::alert_registry::{
    Abort, AlertConfig, AlertEnv, AlertEvent, AlertInput, AlertRegistry, ContractError,
};

fn owner() -> Address {
    Address::account(1, 1)
}

fn target() -> Address {
    Address::contract(2, 2)
}

fn b(s: &str) -> Vec<u8> {
    s.as_bytes().to_vec()
}

fn config(label: &str, owner: Address, target: Address) -> AlertConfig {
    AlertConfig {
        label: b(label),
        webhook_hash: b("hash"),
        rules: vec![b("rule:mint")],
        owner,
        target_contract: target,
        created_at: 5,
        updated_at: 6,
        active: true,
    }
}

fn register(env: &mut AlertEnv, owner: Address, target: Address, label: &str) -> u64 {
    let label = b(label);
    let rules: Vec<Vec<u8>> = vec![];
    AlertRegistry::check_register_alert(env, &owner, &target, &label, &rules).unwrap();
    AlertRegistry::register_alert(env, owner, target, label, b("h"), rules)
}

#[test]
fn next_id_counts_from_zero() {
    let mut env = AlertEnv::new(0, 4096);
    assert_eq!(storage::next_id(&mut env), 0);
    assert_eq!(storage::next_id(&mut env), 1);
    assert_eq!(storage::peek_next_id(&env), 2);
    assert_eq!(env.next_id_entry(), Some(2));
}

#[test]
fn writing_an_alert_extends_its_ttl() {
    let mut env = AlertEnv::new(0, 4096);
    storage::set_alert(&mut env, 3, &config("a", owner(), target()));
    assert_eq!(env.alert_ttl(3), Some(DEFAULT_TTL));
    assert!(storage::has_alert(&env, 3));
    assert_eq!(storage::get_alert(&env, 3).unwrap().label, b("a"));

    // a network minimum above the default is kept
    let mut long_lived = AlertEnv::new(0, 30_000);
    storage::set_alert(&mut long_lived, 3, &config("a", owner(), target()));
    assert_eq!(long_lived.alert_ttl(3), Some(30_000));
}

#[test]
fn extending_an_alert_ttl_raises_only_short_ttls() {
    let mut env = AlertEnv::new(0, 4096);
    env.load_alert(1, config("a", owner(), target()), 40);
    storage::extend_alert_ttl(&mut env, 1);
    assert_eq!(env.alert_ttl(1), Some(EXTENSION_TTL));

    storage::set_alert(&mut env, 2, &config("b", owner(), target()));
    storage::extend_alert_ttl(&mut env, 2);
    assert_eq!(env.alert_ttl(2), Some(DEFAULT_TTL));
}

#[test]
fn removing_an_alert_drops_entry_and_ttl() {
    let mut env = AlertEnv::new(0, 4096);
    storage::set_alert(&mut env, 9, &config("a", owner(), target()));
    storage::remove_alert(&mut env, 9);
    assert!(!storage::has_alert(&env, 9));
    assert!(storage::get_alert(&env, 9).is_none());
    assert_eq!(env.alert_ttl(9), None);
}

#[test]
fn pushing_appends_fresh_ids() {
    let mut env = AlertEnv::new(0, 4096);
    assert_eq!(storage::push_owner_index(&mut env, &owner(), 4), Ok(()));
    assert_eq!(storage::push_owner_index(&mut env, &owner(), 5), Ok(()));
    assert_eq!(storage::owner_index(&env, &owner()), vec![4, 5]);
    assert_eq!(storage::push_contract_index(&mut env, &target(), 4), Ok(()));
    assert_eq!(storage::contract_index(&env, &target()), vec![4]);
    assert_eq!(env.owner_index_entry(&owner()), Some((vec![4, 5], DEFAULT_TTL)));
}

#[test]
fn an_already_indexed_id_aborts_the_registration() {
    let mut env = AlertEnv::new(0, 4096);
    env.load_owner_index(owner(), vec![0], 10);
    assert_eq!(
        AlertRegistry::check_register_alert(&env, &owner(), &target(), &b("a"), &vec![]),
        Err(Abort::DuplicateAlertId)
    );
    let mut env = AlertEnv::new(0, 4096);
    env.load_contract_index(target(), vec![3, 0], 10);
    assert_eq!(
        AlertRegistry::check_register_alert(&env, &owner(), &target(), &b("a"), &vec![]),
        Err(Abort::DuplicateAlertId)
    );
    // another owner's index does not matter
    assert_eq!(
        AlertRegistry::check_register_alert(&env, &owner(), &owner(), &b("a"), &vec![]),
        Ok(())
    );
}

#[test]
fn removing_from_an_index_drops_every_occurrence() {
    let mut env = AlertEnv::new(0, 4096);
    env.load_owner_index(owner(), vec![1, 2, 1, 3], 7);
    storage::remove_from_owner_index(&mut env, &owner(), 1);
    assert_eq!(env.owner_index_entry(&owner()), Some((vec![2, 3], DEFAULT_TTL)));

    // an absent index is written back empty
    storage::remove_from_contract_index(&mut env, &target(), 1);
    assert_eq!(env.contract_index_entry(&target()), Some((vec![], DEFAULT_TTL)));
}

#[test]
fn extending_an_index_ttl_needs_the_entry() {
    let mut env = AlertEnv::new(0, 4096);
    storage::extend_owner_index_ttl(&mut env, &owner());
    assert_eq!(env.owner_index_entry(&owner()), None);
    env.load_owner_index(owner(), vec![8], 3);
    storage::extend_owner_index_ttl(&mut env, &owner());
    assert_eq!(env.owner_index_entry(&owner()), Some((vec![8], EXTENSION_TTL)));
    env.load_contract_index(target(), vec![8], 500);
    storage::extend_contract_index_ttl(&mut env, &target());
    assert_eq!(env.contract_index_entry(&target()), Some((vec![8], 500)));
}

#[test]
fn configs_for_ids_skips_missing_alerts() {
    let mut env = AlertEnv::new(0, 4096);
    storage::set_alert(&mut env, 1, &config("one", owner(), target()));
    storage::set_alert(&mut env, 3, &config("three", owner(), target()));
    let found = storage::configs_for_ids(&env, &vec![3, 999, 1]);
    let labels: Vec<Vec<u8>> = found.iter().map(|c| c.label.clone()).collect();
    assert_eq!(labels, vec![b("three"), b("one")]);
}

#[test]
fn pagination_windows_are_clipped() {
    let mut env = AlertEnv::new(0, 4096);
    for id in 0..5u64 {
        storage::set_alert(&mut env, id, &config(&format!("a{}", id), owner(), target()));
    }
    let ids = vec![0, 1, 2, 3, 4];
    let labels = |v: Vec<AlertConfig>| v.iter().map(|c| c.label.clone()).collect::<Vec<_>>();
    assert_eq!(labels(storage::configs_paginated(&env, &ids, 1, 2)), vec![b("a1"), b("a2")]);
    assert_eq!(labels(storage::configs_paginated(&env, &ids, 3, 10)), vec![b("a3"), b("a4")]);
    // windows whose end lies past u32::MAX are answered too
    assert!(storage::configs_paginated(&env, &ids, u32::MAX, u32::MAX).is_empty());
    assert_eq!(
        labels(storage::configs_paginated(&env, &ids, 1, u32::MAX)),
        vec![b("a1"), b("a2"), b("a3"), b("a4")]
    );
    assert!(storage::configs_paginated(&env, &ids, 7, 2).is_empty());
    assert!(storage::configs_paginated(&env, &ids, 2, 0).is_empty());
    // consecutive pages concatenate to the longer page
    let mut joined = labels(storage::configs_paginated(&env, &ids, 0, 2));
    joined.extend(labels(storage::configs_paginated(&env, &ids, 2, 3)));
    assert_eq!(joined, labels(storage::configs_paginated(&env, &ids, 0, 5)));
    assert_eq!(joined, labels(storage::configs_for_ids(&env, &ids)));
}

#[test]
fn paginated_queries_follow_the_indexes() {
    let mut env = AlertEnv::new(0, 4096);
    let other = Address::account(9, 9);
    let a = register(&mut env, owner(), target(), "a");
    let _b = register(&mut env, other, target(), "b");
    let c = register(&mut env, owner(), target(), "c");
    let by_owner = AlertRegistry::get_alerts_by_owner_paginated(&env, owner(), 1, 5);
    assert_eq!(by_owner.len(), 1);
    assert_eq!(by_owner[0].label, b("c"));
    let by_contract = AlertRegistry::get_contract_alerts_paginated(&env, target(), 0, 2);
    assert_eq!(by_contract.len(), 2);
    assert_eq!(by_contract[1].label, b("b"));
    assert_eq!(
        AlertRegistry::get_contract_alerts_paginated(&env, target(), u32::MAX, u32::MAX).len(),
        0
    );
    assert_eq!(AlertRegistry::get_alerts_by_owner_paginated(&env, owner(), 1, u32::MAX).len(), 1);
    AlertRegistry::remove_alert(&mut env, owner(), a).unwrap();
    assert_eq!(storage::owner_index(&env, &owner()), vec![c]);
    assert_eq!(AlertRegistry::get_alerts_by_owner(&env, owner(), owner(), false).unwrap().len(), 1);
}

#[test]
fn admin_and_limit_errors() {
    let mut env = AlertEnv::new(0, 4096);
    let admin = Address::account(5, 5);
    let stranger = Address::account(6, 6);
    assert_eq!(AlertRegistry::get_admin(&env), Err(ContractError::NotInitialized));
    assert_eq!(
        AlertRegistry::transfer_admin(&mut env, admin, stranger),
        Err(ContractError::NotInitialized)
    );
    assert_eq!(
        AlertRegistry::set_per_owner_alert_limit(&mut env, admin, 3),
        Err(ContractError::NotInitialized)
    );
    assert_eq!(AlertRegistry::initialize(&mut env, admin), Ok(()));
    assert_eq!(
        AlertRegistry::initialize(&mut env, stranger),
        Err(ContractError::AlreadyInitialized)
    );
    assert_eq!(AlertRegistry::get_admin(&env), Ok(admin));
    assert_eq!(
        AlertRegistry::set_per_owner_alert_limit(&mut env, stranger, 3),
        Err(ContractError::Unauthorized)
    );
    assert_eq!(AlertRegistry::get_per_owner_alert_limit(&env), 0);
    assert_eq!(AlertRegistry::set_per_owner_alert_limit(&mut env, admin, 3), Ok(()));
    assert_eq!(AlertRegistry::get_per_owner_alert_limit(&env), 3);
    assert_eq!(
        AlertRegistry::remove_alert_by_admin(&mut env, stranger, 0),
        Err(ContractError::Unauthorized)
    );
    assert_eq!(
        AlertRegistry::remove_alert_by_admin(&mut env, admin, 0),
        Err(ContractError::AlertNotFound)
    );
    assert_eq!(AlertRegistry::transfer_admin(&mut env, admin, stranger), Ok(()));
    assert_eq!(
        AlertRegistry::remove_alert_by_admin(&mut env, admin, 0),
        Err(ContractError::Unauthorized)
    );
}

#[test]
fn missing_alerts_are_reported() {
    let mut env = AlertEnv::new(0, 4096);
    assert_eq!(
        AlertRegistry::remove_alert(&mut env, owner(), 4),
        Err(ContractError::AlertNotFound)
    );
    assert_eq!(
        AlertRegistry::update_webhook(&mut env, owner(), 4, b("x")),
        Err(ContractError::AlertNotFound)
    );
    assert!(env.events().is_empty());
}

#[test]
fn timestamps_and_events_follow_the_ledger() {
    let mut env = AlertEnv::new(100, 4096);
    let id = register(&mut env, owner(), target(), "a");
    env.set_timestamp(250);
    AlertRegistry::update_alert(&mut env, owner(), id, vec![b("rule:transfer")], false)
        .unwrap();
    let cfg = AlertRegistry::get_alert(&env, id).unwrap();
    assert_eq!((cfg.created_at, cfg.updated_at, cfg.active), (100, 250, false));
    assert_eq!(cfg.webhook_hash, b("h"));
    AlertRegistry::remove_alert(&mut env, owner(), id).unwrap();
    assert_eq!(
        env.events(),
        vec![
            AlertEvent::Registered { id, owner: owner(), target_contract: target() },
            AlertEvent::Removed { id, caller: owner() },
        ]
    );
}

#[test]
fn per_owner_limit_counts_stored_alerts() {
    let mut env = AlertEnv::new(0, 4096);
    let admin = Address::account(5, 5);
    AlertRegistry::initialize(&mut env, admin).unwrap();
    AlertRegistry::set_per_owner_alert_limit(&mut env, admin, 2).unwrap();
    let a = register(&mut env, owner(), target(), "a");
    register(&mut env, owner(), target(), "b");
    let label = b("c");
    assert_eq!(
        AlertRegistry::check_register_alert(&env, &owner(), &target(), &label, &vec![]),
        Err(Abort::OwnerAlertLimitExceeded)
    );
    // another owner is not affected
    register(&mut env, Address::account(4, 4), target(), "d");
    AlertRegistry::remove_alert(&mut env, owner(), a).unwrap();
    assert_eq!(AlertRegistry::get_active_alert_count(&env, owner()), 1);
    register(&mut env, owner(), target(), "e");
    assert_eq!(AlertRegistry::get_active_alert_count(&env, owner()), 2);
}

#[test]
fn aborts_carry_the_contract_messages() {
    let mut env = AlertEnv::new(0, 4096);
    // the limit counts bytes: 65 two-byte characters are too long
    let long = b(&"é".repeat(65));
    assert_eq!(long.len(), 130);
    assert_eq!(
        AlertRegistry::check_register_alert(&env, &owner(), &target(), &long, &vec![]),
        Err(Abort::LabelTooLong)
    );
    // labels are bytes, not necessarily UTF-8
    assert_eq!(
        AlertRegistry::check_register_alert(&env, &owner(), &target(), &vec![0xff; 128], &vec![]),
        Ok(())
    );
    assert_eq!(
        AlertRegistry::check_register_alert(&env, &owner(), &target(), &vec![0xff; 129], &vec![]),
        Err(Abort::LabelTooLong)
    );
    let bad = vec![b("rule:mint"), b("rule:burn")];
    assert_eq!(AlertRegistry::check_update_alert(&env, &owner(), 0, &bad), Ok(()));
    let id = register(&mut env, owner(), target(), "a");
    assert_eq!(
        AlertRegistry::check_update_alert(&env, &owner(), id, &bad),
        Err(Abort::InvalidRuleDescriptor)
    );
    assert_eq!(
        AlertRegistry::check_update_alert(&env, &target(), id, &bad),
        Ok(())
    );
    env.load_instance(Some(u64::MAX), None, None, None);
    assert_eq!(
        AlertRegistry::check_register_alert(&env, &owner(), &target(), &b("x"), &vec![]),
        Err(Abort::IdCounterExhausted)
    );
    assert_eq!(Abort::LabelTooLong.message(), "label exceeds 128 bytes");
    assert_eq!(Abort::TooManyRules.message(), "too many rules: maximum is 50");
    assert_eq!(Abort::InvalidRuleDescriptor.message(), "invalid rule descriptor");
    assert_eq!(Abort::OwnerAlertLimitExceeded.message(), "owner alert limit exceeded");
    assert_eq!(Abort::IdCounterExhausted.message(), "attempt to add with overflow");
    assert_eq!(Abort::DuplicateAlertId.message(), "alert id already indexed");
    assert_eq!(Abort::IndexFull.message(), "vector length exceeds u32::MAX");
}

#[test]
fn clone_keeps_the_configuration() {
    let c = config("x", owner(), target());
    let d = c.clone();
    assert_eq!(d.label, c.label);
    assert_eq!(d.rules, c.rules);
    assert_eq!(d.owner, c.owner);
    assert_eq!((d.created_at, d.updated_at, d.active), (5, 6, true));
}

#[test]
fn batch_input_carries_per_alert_fields() {
    let input = AlertInput {
        target_contract: target(),
        label: b("batch"),
        webhook_hash: b("h"),
        rules: vec![],
    };
    assert_eq!(input.label, b("batch"));
    assert_eq!(MAX_BATCH_SIZE, 20);
}

#[test]
fn registration_refreshes_every_written_entry() {
    let mut env = AlertEnv::new(0, 4096);
    let id = register(&mut env, owner(), target(), "a");
    assert_eq!(env.alert_ttl(id), Some(DEFAULT_TTL));
    assert_eq!(env.owner_index_entry(&owner()), Some((vec![id], DEFAULT_TTL)));
    assert_eq!(env.contract_index_entry(&target()), Some((vec![id], DEFAULT_TTL)));
    // reads leave TTLs alone
    let _ = AlertRegistry::get_alerts_by_owner(&env, owner(), owner(), false);
    assert_eq!(env.alert_ttl(id), Some(DEFAULT_TTL));
}

#[test]
fn removed_ids_are_never_reused() {
    let mut env = AlertEnv::new(0, 4096);
    let a = register(&mut env, owner(), target(), "a");
    let b = register(&mut env, owner(), target(), "b");
    AlertRegistry::remove_alert(&mut env, owner(), b).unwrap();
    AlertRegistry::remove_alert(&mut env, owner(), a).unwrap();
    let c = register(&mut env, owner(), target(), "c");
    assert_eq!((a, b, c), (0, 1, 2));
    assert_eq!(storage::owner_index(&env, &owner()), vec![c]);
    assert_eq!(storage::contract_index(&env, &target()), vec![c]);
}
