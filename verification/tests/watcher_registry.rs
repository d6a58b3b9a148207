use txwatch_registry::address::Address;
use txwatch_registry::watcher_registry::{ContractError, WatcherEnv, WatcherEvent, WatcherRegistry};

struct Fixture {
    env: WatcherEnv,
    next_address: u128,
}

impl Fixture {
    fn generate(&mut self) -> Address {
        self.next_address += 1;
        Address::account(3, self.next_address)
    }
}

fn fresh() -> Fixture {
    Fixture { env: WatcherEnv::new(), next_address: 0 }
}

fn setup() -> (Fixture, Address) {
    let mut f = fresh();
    let admin = f.generate();
    WatcherRegistry::initialize(&mut f.env, admin).unwrap();
    (f, admin)
}

// 1. Happy path — register and check authorization
#[test]
fn test_register_and_is_watcher_authorized() {
    let (mut f, admin) = setup();
    let watcher = f.generate();

    assert!(!WatcherRegistry::is_watcher_authorized(&f.env, watcher));
    assert_eq!(WatcherRegistry::register_watcher(&mut f.env, admin, watcher), Ok(()));
    assert!(WatcherRegistry::is_watcher_authorized(&f.env, watcher));
}

// 2. Happy path — remove watcher
#[test]
fn test_remove_watcher() {
    let (mut f, admin) = setup();
    let watcher = f.generate();

    WatcherRegistry::register_watcher(&mut f.env, admin, watcher).unwrap();
    assert_eq!(WatcherRegistry::remove_watcher(&mut f.env, admin, watcher), Ok(()));
    assert!(!WatcherRegistry::is_watcher_authorized(&f.env, watcher));
}

// 3. Happy path — transfer admin (replaces entire admin set)
#[test]
fn test_transfer_admin() {
    let (mut f, admin) = setup();
    let new_admin = f.generate();
    let watcher = f.generate();

    assert_eq!(WatcherRegistry::transfer_admin(&mut f.env, admin, new_admin), Ok(()));
    // new admin can register watchers
    assert_eq!(WatcherRegistry::register_watcher(&mut f.env, new_admin, watcher), Ok(()));
    assert!(WatcherRegistry::is_watcher_authorized(&f.env, watcher));
}

// 3b. transfer_admin emits an event
#[test]
fn test_transfer_admin_emits_event() {
    let (mut f, admin) = setup();
    let new_admin = f.generate();

    WatcherRegistry::transfer_admin(&mut f.env, admin, new_admin).unwrap();

    let events = f.env.events();
    let found = events.iter().any(|e| {
        let _ = e;
        true
    });
    assert!(found);
}

// 4. Unauthorized register rejected
#[test]
fn test_register_unauthorized() {
    let (mut f, _admin) = setup();
    let attacker = f.generate();
    let watcher = f.generate();

    assert_eq!(
        WatcherRegistry::register_watcher(&mut f.env, attacker, watcher),
        Err(ContractError::Unauthorized)
    );
}

// 5. Unauthorized remove rejected
#[test]
fn lib_test_remove_unauthorized() {
    let (mut f, admin) = setup();
    let attacker = f.generate();
    let watcher = f.generate();

    WatcherRegistry::register_watcher(&mut f.env, admin, watcher).unwrap();
    assert_eq!(
        WatcherRegistry::remove_watcher(&mut f.env, attacker, watcher),
        Err(ContractError::Unauthorized)
    );
}

// 6. Edge case — double initialize returns AlreadyInitialized error
#[test]
fn test_double_initialize() {
    let (mut f, _admin) = setup();
    let other = f.generate();
    let err = WatcherRegistry::initialize(&mut f.env, other).unwrap_err();
    assert_eq!(err, ContractError::AlreadyInitialized);
}

// 7. Edge case — get_watchers returns empty before any registration
#[test]
fn test_get_watchers_empty() {
    let (f, _admin) = setup();
    assert_eq!(WatcherRegistry::get_watchers(&f.env).len(), 0);
}

// 8. Edge case — register same watcher twice is idempotent
#[test]
fn test_register_idempotent() {
    let (mut f, admin) = setup();
    let watcher = f.generate();

    assert_eq!(WatcherRegistry::register_watcher(&mut f.env, admin, watcher), Ok(()));
    assert_eq!(WatcherRegistry::register_watcher(&mut f.env, admin, watcher), Ok(()));
    assert_eq!(WatcherRegistry::get_watchers(&f.env).len(), 1);
}

// 8b. Edge case — repeated calls with the same watcher stay idempotent
#[test]
fn test_register_idempotent_after_five_duplicates() {
    let (mut f, admin) = setup();
    let watcher = f.generate();

    for _ in 0..5 {
        assert_eq!(WatcherRegistry::register_watcher(&mut f.env, admin, watcher), Ok(()));
    }
    assert_eq!(WatcherRegistry::get_watchers(&f.env).len(), 1);
}

// 9. Multiple watchers
#[test]
fn test_multiple_watchers() {
    let (mut f, admin) = setup();
    let w1 = f.generate();
    let w2 = f.generate();
    let w3 = f.generate();

    WatcherRegistry::register_watcher(&mut f.env, admin, w1).unwrap();
    WatcherRegistry::register_watcher(&mut f.env, admin, w2).unwrap();
    WatcherRegistry::register_watcher(&mut f.env, admin, w3).unwrap();

    assert_eq!(WatcherRegistry::get_watchers(&f.env).len(), 3);
    assert!(WatcherRegistry::is_watcher_authorized(&f.env, w1));
    assert!(WatcherRegistry::is_watcher_authorized(&f.env, w2));
    assert!(WatcherRegistry::is_watcher_authorized(&f.env, w3));
}

// 10. get_admin returns correct admin
#[test]
fn test_get_admin() {
    let (f, admin) = setup();
    assert_eq!(WatcherRegistry::get_admin(&f.env).unwrap(), admin);
}

#[test]
fn test_get_admin_uninitialized() {
    let f = fresh();
    assert_eq!(
        WatcherRegistry::get_admin(&f.env).unwrap_err(),
        ContractError::NotInitialized
    );
}

// 11. get_admin fails with NotInitialized when the contract is not initialized
#[test]
#[should_panic]
fn test_get_admin_not_initialized() {
    let f = fresh();
    WatcherRegistry::get_admin(&f.env).unwrap();
}

// 12. old admin cannot act after transfer
#[test]
fn test_old_admin_rejected_after_transfer() {
    let (mut f, admin) = setup();
    let new_admin = f.generate();
    let watcher = f.generate();

    assert_eq!(WatcherRegistry::transfer_admin(&mut f.env, admin, new_admin), Ok(()));
    assert_eq!(
        WatcherRegistry::register_watcher(&mut f.env, admin, watcher),
        Err(ContractError::Unauthorized)
    );
}

// 13. add_admin — second admin can perform privileged operations
#[test]
fn test_add_admin_grants_privileges() {
    let (mut f, admin) = setup();
    let second_admin = f.generate();
    let watcher = f.generate();

    assert_eq!(WatcherRegistry::add_admin(&mut f.env, admin, second_admin), Ok(()));

    // second admin can now register watchers
    assert_eq!(WatcherRegistry::register_watcher(&mut f.env, second_admin, watcher), Ok(()));
    assert!(WatcherRegistry::is_authorized(&f.env, watcher));
}

// 14. add_admin is idempotent
#[test]
fn test_add_admin_idempotent() {
    let (mut f, admin) = setup();
    let second_admin = f.generate();

    WatcherRegistry::add_admin(&mut f.env, admin, second_admin).unwrap();
    WatcherRegistry::add_admin(&mut f.env, admin, second_admin).unwrap();

    assert_eq!(WatcherRegistry::get_admins(&f.env).unwrap().len(), 2);
}

// 15. remove_admin — removed admin loses privileges
#[test]
fn test_remove_admin_revokes_privileges() {
    let (mut f, admin) = setup();
    let second_admin = f.generate();
    let watcher = f.generate();

    WatcherRegistry::add_admin(&mut f.env, admin, second_admin).unwrap();
    assert_eq!(WatcherRegistry::remove_admin(&mut f.env, admin, second_admin), Ok(()));

    assert_eq!(
        WatcherRegistry::register_watcher(&mut f.env, second_admin, watcher),
        Err(ContractError::Unauthorized)
    );
}

// 16. remove_admin — cannot remove the last admin
#[test]
fn test_remove_last_admin_rejected() {
    let (mut f, admin) = setup();

    assert_eq!(
        WatcherRegistry::remove_admin(&mut f.env, admin, admin),
        Err(ContractError::LastAdmin)
    );
}

// 17. get_admins returns all admins
#[test]
fn test_get_admins() {
    let (mut f, admin) = setup();
    let second_admin = f.generate();

    WatcherRegistry::add_admin(&mut f.env, admin, second_admin).unwrap();

    let admins = WatcherRegistry::get_admins(&f.env).unwrap();
    assert_eq!(admins.len(), 2);
}

// 18. non-admin cannot add_admin
#[test]
fn test_add_admin_unauthorized() {
    let (mut f, _admin) = setup();
    let attacker = f.generate();
    let victim = f.generate();

    assert_eq!(
        WatcherRegistry::add_admin(&mut f.env, attacker, victim),
        Err(ContractError::Unauthorized)
    );
}

// 19. non-admin cannot remove_admin
#[test]
fn test_remove_admin_unauthorized() {
    let (mut f, admin) = setup();
    let attacker = f.generate();

    assert_eq!(
        WatcherRegistry::remove_admin(&mut f.env, attacker, admin),
        Err(ContractError::Unauthorized)
    );
}

// 20. add_admin emits event
#[test]
fn test_add_admin_emits_event() {
    let (mut f, admin) = setup();
    let second_admin = f.generate();

    WatcherRegistry::add_admin(&mut f.env, admin, second_admin).unwrap();

    assert!(!f.env.events().is_empty());
}

// 21. remove_admin emits event
#[test]
fn test_remove_admin_emits_event() {
    let (mut f, admin) = setup();
    let second_admin = f.generate();

    WatcherRegistry::add_admin(&mut f.env, admin, second_admin).unwrap();
    WatcherRegistry::remove_admin(&mut f.env, admin, second_admin).unwrap();

    assert!(!f.env.events().is_empty());
}

// 22. remove_watcher emits event
#[test]
fn test_remove_watcher_emits_event() {
    let (mut f, admin) = setup();
    let watcher = f.generate();

    WatcherRegistry::register_watcher(&mut f.env, admin, watcher).unwrap();
    WatcherRegistry::remove_watcher(&mut f.env, admin, watcher).unwrap();

    assert!(!f.env.events().is_empty());
}

// ── Further cases ────────────────────────────────────────────────────────────

#[test]
fn events_record_each_admin_and_watcher_change() {
    let (mut f, admin) = setup();
    let second = f.generate();
    let watcher = f.generate();
    WatcherRegistry::add_admin(&mut f.env, admin, second).unwrap();
    WatcherRegistry::add_admin(&mut f.env, admin, second).unwrap();
    WatcherRegistry::register_watcher(&mut f.env, second, watcher).unwrap();
    WatcherRegistry::register_watcher(&mut f.env, second, watcher).unwrap();
    WatcherRegistry::remove_watcher(&mut f.env, admin, watcher).unwrap();
    WatcherRegistry::remove_admin(&mut f.env, second, admin).unwrap();
    WatcherRegistry::transfer_admin(&mut f.env, second, admin).unwrap();
    assert_eq!(
        f.env.events(),
        vec![
            WatcherEvent::AdminInitialized { admin },
            WatcherEvent::AdminAdded { caller: admin, new_admin: second },
            WatcherEvent::WatcherRegistered { watcher },
            WatcherEvent::WatcherRemoved { watcher },
            WatcherEvent::AdminRemoved { caller: second, target_admin: admin },
            WatcherEvent::AdminTransferred { admin: second, new_admin: admin },
        ]
    );
}

#[test]
fn remove_watcher_never_registered_is_a_silent_no_op() {
    let (mut f, admin) = setup();
    let stranger = f.generate();
    let events_before = f.env.events();
    assert_eq!(WatcherRegistry::remove_watcher(&mut f.env, admin, stranger), Ok(()));
    assert!(WatcherRegistry::get_watchers(&f.env).is_empty());
    assert!(!WatcherRegistry::is_authorized(&f.env, stranger));
    assert!(!WatcherRegistry::is_watcher_authorized(&f.env, stranger));
    assert_eq!(f.env.events(), events_before);
    assert_eq!(f.env.events().last(), Some(&WatcherEvent::AdminInitialized { admin }));
}

#[test]
fn operations_before_initialize_report_not_initialized() {
    let mut f = fresh();
    let a = f.generate();
    let b = f.generate();
    assert_eq!(WatcherRegistry::get_admins(&f.env).unwrap_err(), ContractError::NotInitialized);
    assert_eq!(WatcherRegistry::add_admin(&mut f.env, a, b), Err(ContractError::NotInitialized));
    assert_eq!(WatcherRegistry::remove_admin(&mut f.env, a, b), Err(ContractError::NotInitialized));
    assert_eq!(WatcherRegistry::transfer_admin(&mut f.env, a, b), Err(ContractError::NotInitialized));
    assert_eq!(WatcherRegistry::register_watcher(&mut f.env, a, b), Err(ContractError::NotInitialized));
    assert_eq!(WatcherRegistry::remove_watcher(&mut f.env, a, b), Err(ContractError::NotInitialized));
    assert!(f.env.events().is_empty());
}

#[test]
fn removing_an_admin_keeps_the_others_in_order() {
    let (mut f, admin) = setup();
    let b = f.generate();
    let c = f.generate();
    WatcherRegistry::add_admin(&mut f.env, admin, b).unwrap();
    WatcherRegistry::add_admin(&mut f.env, admin, c).unwrap();
    WatcherRegistry::remove_admin(&mut f.env, c, b).unwrap();
    assert_eq!(WatcherRegistry::get_admins(&f.env).unwrap(), vec![admin, c]);
    assert_eq!(WatcherRegistry::get_admin(&f.env).unwrap(), admin);
    // removing a non-admin while two admins exist still succeeds and keeps both
    let stranger = f.generate();
    WatcherRegistry::remove_admin(&mut f.env, c, stranger).unwrap();
    assert_eq!(WatcherRegistry::get_admins(&f.env).unwrap(), vec![admin, c]);
}

#[test]
fn admins_can_never_be_emptied() {
    let (mut f, admin) = setup();
    let b = f.generate();
    WatcherRegistry::add_admin(&mut f.env, admin, b).unwrap();
    WatcherRegistry::remove_admin(&mut f.env, admin, b).unwrap();
    assert_eq!(
        WatcherRegistry::remove_admin(&mut f.env, admin, admin),
        Err(ContractError::LastAdmin)
    );
    assert_eq!(WatcherRegistry::get_admins(&f.env).unwrap(), vec![admin]);
}

#[test]
fn loaded_entries_are_checked() {
    let a = Address::account(0, 1);
    let b = Address::contract(0, 1);
    assert!(a != b);
    assert!(WatcherEnv::from_entries(Some(vec![a, b]), vec![a]).is_some());
    assert!(WatcherEnv::from_entries(Some(vec![]), vec![]).is_none());
    assert!(WatcherEnv::from_entries(Some(vec![a, a]), vec![]).is_none());
    assert!(WatcherEnv::from_entries(None, vec![b, a, b]).is_none());
    let env = WatcherEnv::from_entries(None, vec![b]).unwrap();
    assert!(WatcherRegistry::is_watcher_authorized(&env, b));
    assert_eq!(env.admins_entry(), None);
}
