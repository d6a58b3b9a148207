use txwatch_registry::address::Address;
use txwatch_registry::alert_registry::{AlertConfig, AlertEnv, AlertRegistry, ContractError};
use txwatch_registry::watcher_registry::{WatcherEnv, WatcherRegistry};

fn setup() -> (AlertEnv, WatcherEnv) {
    (AlertEnv::new(0, 4096), WatcherEnv::new())
}

fn addr(n: u128) -> Address {
    Address::account(11, n)
}

fn b(s: &str) -> Vec<u8> {
    s.as_bytes().to_vec()
}

/// The address the watcher registry contract is deployed at.
fn watcher_contract() -> Address {
    Address::contract(12, 99)
}

/// Queries the alerts watching `target` as `caller`, asking the watcher
/// registry about `caller` as the deployed contract does.
fn alerts_for_contract(
    alerts: &AlertEnv,
    watchers: &WatcherEnv,
    caller: Address,
    target: Address,
) -> Result<Vec<AlertConfig>, ContractError> {
    let is_watcher = WatcherRegistry::is_watcher_authorized(watchers, caller);
    AlertRegistry::get_alerts_for_contract(alerts, caller, target, is_watcher)
}

/// Queries the alerts owned by `owner` as `caller`, asking the watcher
/// registry about `caller` as the deployed contract does.
fn alerts_by_owner(
    alerts: &AlertEnv,
    watchers: &WatcherEnv,
    caller: Address,
    owner: Address,
) -> Result<Vec<AlertConfig>, ContractError> {
    let is_watcher = WatcherRegistry::is_watcher_authorized(watchers, caller);
    AlertRegistry::get_alerts_by_owner(alerts, caller, owner, is_watcher)
}

fn register(
    env: &mut AlertEnv,
    owner: Address,
    target: Address,
    label: &str,
    hash: &str,
    rules: &[&str],
) -> u64 {
    let label = b(label);
    let rules: Vec<Vec<u8>> = rules.iter().map(|r| b(r)).collect();
    if let Err(abort) = AlertRegistry::check_register_alert(env, &owner, &target, &label, &rules) {
        panic!("{}", abort.message());
    }
    AlertRegistry::register_alert(env, owner, target, label, b(hash), rules)
}

/// An authorized watcher can query AlertRegistry and see registered alerts
/// when no watcher-gating is configured (open access mode).
#[test]
fn test_authorized_watcher_can_query_alert_registry_open_mode() {
    let (mut alerts, mut watchers) = setup();

    let admin = addr(1);
    let watcher = addr(2);
    let owner = addr(3);
    let target = addr(4);

    WatcherRegistry::initialize(&mut watchers, admin).unwrap();
    WatcherRegistry::register_watcher(&mut watchers, admin, watcher).unwrap();

    let id = register(
        &mut alerts,
        owner,
        target,
        "Cross-contract alert",
        "webhook-hash-abc",
        &["rule:transfer"],
    );

    assert!(WatcherRegistry::is_watcher_authorized(&watchers, watcher));

    let found = alerts_for_contract(&alerts, &watchers, watcher, target).unwrap();
    assert_eq!(found.len(), 1);
    assert_eq!(found[0].label, b("Cross-contract alert"));

    let cfg = AlertRegistry::get_alert(&alerts, id).unwrap();
    assert_eq!(cfg.owner, owner);
    assert_eq!(cfg.target_contract, target);
    assert!(cfg.active);
}

/// An unauthorized address is not a watcher and cannot be confused with one.
#[test]
fn test_unauthorized_address_not_a_watcher() {
    let (_alerts, mut watchers) = setup();

    let admin = addr(1);
    let stranger = addr(5);

    WatcherRegistry::initialize(&mut watchers, admin).unwrap();

    assert!(!WatcherRegistry::is_watcher_authorized(&watchers, stranger));
}

/// Removing a watcher revokes their authorization while alert data is unaffected.
#[test]
fn test_removed_watcher_loses_authorization_alert_data_intact() {
    let (mut alerts, mut watchers) = setup();

    let admin = addr(1);
    let watcher = addr(2);
    let owner = addr(3);
    let target = addr(4);

    WatcherRegistry::initialize(&mut watchers, admin).unwrap();
    WatcherRegistry::register_watcher(&mut watchers, admin, watcher).unwrap();

    register(&mut alerts, owner, target, "Alert", "hash", &[]);

    WatcherRegistry::remove_watcher(&mut watchers, admin, watcher).unwrap();
    assert!(!WatcherRegistry::is_watcher_authorized(&watchers, watcher));

    assert_eq!(alerts_for_contract(&alerts, &watchers, watcher, target).unwrap().len(), 1);
}

/// When watcher-gating is enabled, a registered watcher can read alert data.
#[test]
fn test_watcher_gating_registered_watcher_can_read() {
    let (mut alerts, mut watchers) = setup();

    let admin = addr(1);
    let watcher = addr(2);
    let owner = addr(3);
    let target = addr(4);

    WatcherRegistry::initialize(&mut watchers, admin).unwrap();
    WatcherRegistry::register_watcher(&mut watchers, admin, watcher).unwrap();

    AlertRegistry::initialize(&mut alerts, admin).unwrap();
    AlertRegistry::set_watcher_registry(&mut alerts, admin, watcher_contract()).unwrap();
    assert_eq!(AlertRegistry::get_watcher_registry(&alerts), Some(watcher_contract()));

    register(&mut alerts, owner, target, "Gated Alert", "hash", &["rule:transfer"]);

    let results = alerts_for_contract(&alerts, &watchers, watcher, target).unwrap();
    assert_eq!(results.len(), 1);
    assert_eq!(results[0].label, b("Gated Alert"));
}

/// When watcher-gating is enabled, an unregistered address is rejected.
#[test]
fn test_watcher_gating_unregistered_address_rejected() {
    let (mut alerts, mut watchers) = setup();

    let admin = addr(1);
    let stranger = addr(5);
    let owner = addr(3);
    let target = addr(4);

    WatcherRegistry::initialize(&mut watchers, admin).unwrap();

    AlertRegistry::initialize(&mut alerts, admin).unwrap();
    AlertRegistry::set_watcher_registry(&mut alerts, admin, watcher_contract()).unwrap();

    register(&mut alerts, owner, target, "Alert", "hash", &[]);

    assert_eq!(
        alerts_for_contract(&alerts, &watchers, stranger, target).map(|v| v.len()),
        Err(ContractError::NotAWatcher)
    );
}

/// When watcher-gating is enabled, a removed watcher loses read access.
#[test]
fn test_watcher_gating_removed_watcher_loses_access() {
    let (mut alerts, mut watchers) = setup();

    let admin = addr(1);
    let watcher = addr(2);
    let owner = addr(3);
    let target = addr(4);

    WatcherRegistry::initialize(&mut watchers, admin).unwrap();
    WatcherRegistry::register_watcher(&mut watchers, admin, watcher).unwrap();

    AlertRegistry::initialize(&mut alerts, admin).unwrap();
    AlertRegistry::set_watcher_registry(&mut alerts, admin, watcher_contract()).unwrap();

    register(&mut alerts, owner, target, "Alert", "hash", &[]);

    assert_eq!(alerts_for_contract(&alerts, &watchers, watcher, target).unwrap().len(), 1);

    WatcherRegistry::remove_watcher(&mut watchers, admin, watcher).unwrap();

    assert_eq!(
        alerts_for_contract(&alerts, &watchers, watcher, target).map(|v| v.len()),
        Err(ContractError::NotAWatcher)
    );
}

/// Watcher-gating also applies to get_alerts_by_owner.
#[test]
fn test_watcher_gating_get_alerts_by_owner() {
    let (mut alerts, mut watchers) = setup();

    let admin = addr(1);
    let watcher = addr(2);
    let stranger = addr(5);
    let owner = addr(3);
    let target = addr(4);

    WatcherRegistry::initialize(&mut watchers, admin).unwrap();
    WatcherRegistry::register_watcher(&mut watchers, admin, watcher).unwrap();

    AlertRegistry::initialize(&mut alerts, admin).unwrap();
    AlertRegistry::set_watcher_registry(&mut alerts, admin, watcher_contract()).unwrap();

    register(&mut alerts, owner, target, "Alert", "hash", &[]);

    assert_eq!(alerts_by_owner(&alerts, &watchers, watcher, owner).unwrap().len(), 1);

    assert_eq!(
        alerts_by_owner(&alerts, &watchers, stranger, owner).map(|v| v.len()),
        Err(ContractError::NotAWatcher)
    );
}

/// Only the admin can point the registry at a watcher registry.
#[test]
fn setting_the_watcher_registry_needs_the_admin() {
    let (mut alerts, _watchers) = setup();
    let admin = addr(1);
    let stranger = addr(5);
    assert_eq!(
        AlertRegistry::set_watcher_registry(&mut alerts, admin, watcher_contract()),
        Err(ContractError::NotInitialized)
    );
    AlertRegistry::initialize(&mut alerts, admin).unwrap();
    assert_eq!(
        AlertRegistry::set_watcher_registry(&mut alerts, stranger, watcher_contract()),
        Err(ContractError::Unauthorized)
    );
    assert_eq!(AlertRegistry::get_watcher_registry(&alerts), None);
    // without a registry every caller is answered
    register(&mut alerts, addr(3), addr(4), "Alert", "hash", &[]);
    assert_eq!(
        AlertRegistry::get_alerts_for_contract(&alerts, stranger, addr(4), false).unwrap().len(),
        1
    );
}
