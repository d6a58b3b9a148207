//! The alert registry's entry points.
//!
//! Each entry point takes the contract's ledger state. The caller's
//! signature (`require_auth`) is checked by the host before the entry point
//! runs. Where the contract aborts the invocation, the entry point
//! `requires` the input away; the matching `check_*` function tells the
//! caller beforehand whether, and with which [`Abort`], it would abort.
use vstd::prelude::*;
use vstd::string::StringSliceAdditionalSpecFns;

use crate::address::Address;
use crate::alert_registry::laws;
use crate::alert_registry::storage::{self, AlertEnv, AlertState, configs_of, configs_view, page};
use crate::alert_registry::types::{
    Abort, AlertConfig, AlertConfigView, AlertEvent, ContractError, MAX_LABEL_BYTES, MAX_RULES,
    strings_view,
};

verus! {

/// The registry contract.
pub struct AlertRegistry;

/// A rule descriptor the registry accepts.
pub open spec fn valid_rule(rule: Seq<u8>) -> bool {
    rule == "rule:transfer".spec_bytes() || rule == "rule:mint".spec_bytes()
}

/// Why a list of rule descriptors is refused, if it is.
pub open spec fn rules_abort(rules: Seq<Seq<u8>>) -> Option<Abort> {
    if rules.len() > MAX_RULES {
        Some(Abort::TooManyRules)
    } else if exists|i: int| 0 <= i < rules.len() && !valid_rule(#[trigger] rules[i]) {
        Some(Abort::InvalidRuleDescriptor)
    } else {
        None
    }
}

/// The number of stored alerts listed under `owner` (the owner's active
/// alerts).
pub open spec fn active_count(s: AlertState, owner: Address) -> nat {
    configs_of(s.alerts, s.owner_ids(owner)).len()
}

/// Whether registering one more alert for `owner` exceeds the per-owner
/// limit (`0` means no limit).
pub open spec fn over_limit(s: AlertState, owner: Address) -> bool {
    s.limit_value() > 0 && active_count(s, owner) >= s.limit_value()
}

/// Why `register_alert` aborts on these inputs, if it does, checked in the
/// contract's order.
pub open spec fn register_abort(
    s: AlertState,
    owner: Address,
    target_contract: Address,
    label: Seq<u8>,
    rules: Seq<Seq<u8>>,
) -> Option<Abort> {
    let id = s.counter();
    if label.len() > MAX_LABEL_BYTES {
        Some(Abort::LabelTooLong)
    } else if rules_abort(rules).is_some() {
        rules_abort(rules)
    } else if over_limit(s, owner) {
        Some(Abort::OwnerAlertLimitExceeded)
    } else if id == u64::MAX {
        Some(Abort::IdCounterExhausted)
    } else if s.owner_ids(owner).contains(id) {
        Some(Abort::DuplicateAlertId)
    } else if s.owner_ids(owner).len() >= u32::MAX {
        Some(Abort::IndexFull)
    } else if s.contract_ids(target_contract).contains(id) {
        Some(Abort::DuplicateAlertId)
    } else if s.contract_ids(target_contract).len() >= u32::MAX {
        Some(Abort::IndexFull)
    } else {
        None
    }
}

/// The configuration a registration stores.
pub open spec fn new_config(
    s: AlertState,
    owner: Address,
    target_contract: Address,
    label: Seq<u8>,
    webhook_hash: Seq<u8>,
    rules: Seq<Seq<u8>>,
) -> AlertConfigView {
    AlertConfigView {
        label,
        webhook_hash,
        rules,
        owner,
        target_contract,
        created_at: s.timestamp,
        updated_at: s.timestamp,
        active: true,
    }
}

/// The state after a registration: the counter advances, the new
/// configuration is stored under the old counter value, the ID is appended
/// to the owner's and the target's index, and the registration is published.
pub open spec fn registered(
    s: AlertState,
    owner: Address,
    target_contract: Address,
    label: Seq<u8>,
    webhook_hash: Seq<u8>,
    rules: Seq<Seq<u8>>,
) -> AlertState {
    let id = s.counter();
    s.advance_counter().put_alert(
        id,
        new_config(s, owner, target_contract, label, webhook_hash, rules),
    ).push_owner(owner, id).push_contract(target_contract, id).emit(
        AlertEvent::Registered { id, owner, target_contract },
    )
}

/// The state after the alert under `id` is removed on behalf of `caller`:
/// the entry is deleted, the ID taken out of its owner's and its target's
/// index, and the removal published.
pub open spec fn removed(s: AlertState, id: u64, caller: Address) -> AlertState {
    let cfg = s.alerts[id];
    s.delete_alert(id).drop_from_owner(cfg.owner, id).drop_from_contract(
        cfg.target_contract,
        id,
    ).emit(AlertEvent::Removed { id, caller })
}

/// The outcome of checking that `caller` owns the alert under `id`.
pub open spec fn owner_check(s: AlertState, caller: Address, id: u64) -> Result<(), ContractError> {
    if !s.alerts.contains_key(id) {
        Err(ContractError::AlertNotFound)
    } else if s.alerts[id].owner != caller {
        Err(ContractError::Unauthorized)
    } else {
        Ok(())
    }
}

/// The outcome of checking that `caller` is the admin.
pub open spec fn admin_check(s: AlertState, caller: Address) -> Result<(), ContractError> {
    match s.admin {
        Some(a) => if a == caller {
            Ok(())
        } else {
            Err(ContractError::Unauthorized)
        },
        None => Err(ContractError::NotInitialized),
    }
}

/// The outcome of the watcher gate for a caller: refused with
/// `NotAWatcher` when a watcher registry is set and does not list the
/// caller (`caller_is_watcher` is its answer), open otherwise.
pub open spec fn watcher_check(s: AlertState, caller_is_watcher: bool) -> Result<(), ContractError> {
    if s.watcher_registry is Some && !caller_is_watcher {
        Err(ContractError::NotAWatcher)
    } else {
        Ok(())
    }
}

/// A call of one of the registry's state-changing entry points, with its
/// arguments as values.
pub enum AlertCall {
    Register {
        owner: Address,
        target_contract: Address,
        label: Seq<u8>,
        webhook_hash: Seq<u8>,
        rules: Seq<Seq<u8>>,
    },
    UpdateAlert { owner: Address, config_id: u64, rules: Seq<Seq<u8>>, active: bool },
    UpdateWebhook { caller: Address, config_id: u64, webhook_hash: Seq<u8> },
    Remove { caller: Address, config_id: u64 },
    RemoveByAdmin { admin: Address, config_id: u64 },
    Initialize { admin: Address },
    TransferAdmin { admin: Address, new_admin: Address },
    SetLimit { admin: Address, limit: u32 },
    SetWatcherRegistry { admin: Address, registry: Address },
}

/// The state a call leaves behind: what the entry point commits, or the
/// state unchanged where it fails or aborts (an abort reverts the whole
/// invocation).
pub open spec fn apply(s: AlertState, c: AlertCall) -> AlertState {
    match c {
        AlertCall::Register { owner, target_contract, label, webhook_hash, rules } => {
            if register_abort(s, owner, target_contract, label, rules) is None {
                registered(s, owner, target_contract, label, webhook_hash, rules)
            } else {
                s
            }
        },
        AlertCall::UpdateAlert { owner, config_id, rules, active } => {
            if owner_check(s, owner, config_id) is Ok && rules_abort(rules) is None {
                s.put_alert(
                    config_id,
                    AlertConfigView {
                        rules,
                        active,
                        updated_at: s.timestamp,
                        ..s.alerts[config_id]
                    },
                )
            } else {
                s
            }
        },
        AlertCall::UpdateWebhook { caller, config_id, webhook_hash } => {
            if owner_check(s, caller, config_id) is Ok {
                s.put_alert(
                    config_id,
                    AlertConfigView { webhook_hash, updated_at: s.timestamp, ..s.alerts[config_id] },
                )
            } else {
                s
            }
        },
        AlertCall::Remove { caller, config_id } => {
            if owner_check(s, caller, config_id) is Ok {
                removed(s, config_id, caller)
            } else {
                s
            }
        },
        AlertCall::RemoveByAdmin { admin, config_id } => {
            if admin_check(s, admin) is Ok && s.alerts.contains_key(config_id) {
                removed(s, config_id, admin)
            } else {
                s
            }
        },
        AlertCall::Initialize { admin } => {
            if s.admin is None {
                AlertState { admin: Some(admin), ..s }
            } else {
                s
            }
        },
        AlertCall::TransferAdmin { admin, new_admin } => {
            if admin_check(s, admin) is Ok {
                AlertState { admin: Some(new_admin), ..s }
            } else {
                s
            }
        },
        AlertCall::SetLimit { admin, limit } => {
            if admin_check(s, admin) is Ok {
                AlertState { limit: Some(limit), ..s }
            } else {
                s
            }
        },
        AlertCall::SetWatcherRegistry { admin, registry } => {
            if admin_check(s, admin) is Ok {
                AlertState { watcher_registry: Some(registry), ..s }
            } else {
                s
            }
        },
    }
}

/// The state a sequence of calls leaves behind, applied in order.
pub open spec fn apply_all(s: AlertState, calls: Seq<AlertCall>) -> AlertState
    decreases calls.len(),
{
    if calls.len() == 0 {
        s
    } else {
        apply(apply_all(s, calls.drop_last()), calls.last())
    }
}

/// `Ok(())` when there is nothing to abort for, else the abort.
pub open spec fn as_result(a: Option<Abort>) -> Result<(), Abort> {
    match a {
        Some(a) => Err(a),
        None => Ok(()),
    }
}

fn assert_owner(config: &AlertConfig, caller: &Address) -> (r: Result<(), ContractError>)
    ensures
        r == if config.owner == *caller {
            Ok::<(), ContractError>(())
        } else {
            Err(ContractError::Unauthorized)
        },
{
    if config.owner == *caller {
        Ok(())
    } else {
        Err(ContractError::Unauthorized)
    }
}

fn assert_admin(env: &AlertEnv, caller: &Address) -> (r: Result<(), ContractError>)
    ensures
        r == admin_check(env@, *caller),
{
    match storage::get_admin(env) {
        Some(admin) => if admin == *caller {
            Ok(())
        } else {
            Err(ContractError::Unauthorized)
        },
        None => Err(ContractError::NotInitialized),
    }
}

/// Counts the IDs in `ids` that have a stored alert.
fn count_stored(env: &AlertEnv, ids: &Vec<u64>) -> (count: u32)
    requires
        ids@.len() <= u32::MAX,
    ensures
        count == configs_of(env@.alerts, ids@).len(),
{
    let mut count: u32 = 0;
    let mut i: usize = 0;
    while i < ids.len()
        invariant
            i <= ids@.len() <= u32::MAX,
            count == configs_of(env@.alerts, ids@.subrange(0, i as int)).len(),
            count <= i,
        decreases ids@.len() - i,
    {
        let ghost prefix = ids@.subrange(0, i as int);
        assert(ids@.subrange(0, i + 1).drop_last() =~= prefix);
        if storage::has_alert(env, ids[i]) {
            count = count + 1;
        }
        i = i + 1;
    }
    assert(ids@.subrange(0, ids@.len() as int) =~= ids@);
    count
}

/// Aborts when `owner` already holds as many stored alerts as the
/// per-owner limit (`0` means no limit).
pub fn assert_per_owner_limit(env: &AlertEnv, owner: &Address) -> (r: Result<(), Abort>)
    ensures
        r == if over_limit(env@, *owner) {
            Err::<(), Abort>(Abort::OwnerAlertLimitExceeded)
        } else {
            Ok(())
        },
{
    let limit = storage::get_limit(env);
    if limit > 0 {
        let ids = storage::owner_index(env, owner);
        let count = count_stored(env, &ids);
        if count >= limit {
            return Err(Abort::OwnerAlertLimitExceeded);
        }
    }
    Ok(())
}

/// Whether two byte strings are equal.
fn bytes_equal(a: &[u8], b: &[u8]) -> (r: bool)
    ensures
        r == (a@ == b@),
{
    if a.len() != b.len() {
        return false;
    }
    let mut i: usize = 0;
    while i < a.len()
        invariant
            i <= a@.len(),
            a@.len() == b@.len(),
            forall|j: int| 0 <= j < i ==> a@[j] == b@[j],
        decreases a@.len() - i,
    {
        if a[i] != b[i] {
            return false;
        }
        i = i + 1;
    }
    assert(a@ =~= b@);
    true
}

/// Aborts when there are more than [`MAX_RULES`] rule descriptors or one of
/// them is neither `rule:transfer` nor `rule:mint`.
pub fn validate_rules(rules: &Vec<Vec<u8>>) -> (r: Result<(), Abort>)
    ensures
        r == as_result(rules_abort(strings_view(rules@))),
{
    let ghost rs = strings_view(rules@);
    if rules.len() > MAX_RULES {
        return Err(Abort::TooManyRules);
    }
    let transfer: &[u8] = "rule:transfer".as_bytes();
    let mint: &[u8] = "rule:mint".as_bytes();
    let mut i: usize = 0;
    while i < rules.len()
        invariant
            i <= rules@.len() <= MAX_RULES,
            rs == strings_view(rules@),
            transfer@ == "rule:transfer".spec_bytes(),
            mint@ == "rule:mint".spec_bytes(),
            forall|j: int| 0 <= j < i ==> valid_rule(#[trigger] rs[j]),
        decreases rules@.len() - i,
    {
        let rule = &rules[i];
        assert(rs[i as int] == rules@[i as int]@);
        if !bytes_equal(rule.as_slice(), transfer) && !bytes_equal(rule.as_slice(), mint) {
            assert(!valid_rule(rs[i as int]));
            return Err(Abort::InvalidRuleDescriptor);
        }
        i = i + 1;
    }
    Ok(())
}

fn remove_alert_record(env: &mut AlertEnv, config: &AlertConfig, config_id: u64, caller: &Address)
    requires
        old(env)@.alerts.contains_key(config_id),
        config@ == old(env)@.alerts[config_id],
    ensures
        final(env)@ == removed(old(env)@, config_id, *caller),
        old(env)@.consistent() ==> final(env)@.consistent(),
{
    storage::remove_alert(env, config_id);
    storage::remove_from_owner_index(env, &config.owner, config_id);
    storage::remove_from_contract_index(env, &config.target_contract, config_id);
    storage::publish(env, AlertEvent::Removed { id: config_id, caller: *caller });
    proof {
        if old(env)@.consistent() {
            laws::lemma_remove_consistent(old(env)@, config_id, *caller);
        }
    }
}

impl AlertRegistry {
    /// Whether `register_alert` would abort on these inputs, and why.
    pub fn check_register_alert(
        env: &AlertEnv,
        owner: &Address,
        target_contract: &Address,
        label: &Vec<u8>,
        rules: &Vec<Vec<u8>>,
    ) -> (r: Result<(), Abort>)
        ensures
            r == as_result(
                register_abort(env@, *owner, *target_contract, label@, strings_view(rules@)),
            ),
    {
        if label.len() > MAX_LABEL_BYTES {
            return Err(Abort::LabelTooLong);
        }
        match validate_rules(rules) {
            Ok(()) => {},
            Err(a) => {
                return Err(a);
            },
        }
        match assert_per_owner_limit(env, owner) {
            Ok(()) => {},
            Err(a) => {
                return Err(a);
            },
        }
        let id: u64 = storage::peek_next_id(env);
        if id == u64::MAX {
            return Err(Abort::IdCounterExhausted);
        }
        let owner_ids = storage::owner_index(env, owner);
        let target_ids = storage::contract_index(env, target_contract);
        if storage::contains_id(&owner_ids, id) {
            return Err(Abort::DuplicateAlertId);
        }
        if owner_ids.len() >= u32::MAX as usize {
            return Err(Abort::IndexFull);
        }
        if storage::contains_id(&target_ids, id) {
            return Err(Abort::DuplicateAlertId);
        }
        if target_ids.len() >= u32::MAX as usize {
            return Err(Abort::IndexFull);
        }
        Ok(())
    }

    /// Whether `update_alert` would abort on these inputs, and why: it
    /// validates the rules only once the alert is found and owned by
    /// `owner`.
    pub fn check_update_alert(env: &AlertEnv, owner: &Address, config_id: u64, rules: &Vec<Vec<u8>>) -> (r:
        Result<(), Abort>)
        ensures
            r == if owner_check(env@, *owner, config_id) is Ok {
                as_result(rules_abort(strings_view(rules@)))
            } else {
                Ok(())
            },
    {
        match storage::get_alert(env, config_id) {
            Some(config) => if config.owner == *owner {
                validate_rules(rules)
            } else {
                Ok(())
            },
            None => Ok(()),
        }
    }

    /// Registers a new alert for `owner` watching `target_contract` and
    /// returns its ID, the counter's value before the call.
    ///
    /// The configuration is stored active, created and updated at the
    /// ledger's time; the ID is appended to the owner's and the target's
    /// index and `("alert", "register")` is published with
    /// `(id, owner, target_contract)`.
    pub fn register_alert(
        env: &mut AlertEnv,
        owner: Address,
        target_contract: Address,
        label: Vec<u8>,
        webhook_hash: Vec<u8>,
        rules: Vec<Vec<u8>>,
    ) -> (id: u64)
        requires
            register_abort(old(env)@, owner, target_contract, label@, strings_view(rules@))
                is None,
        ensures
            final(env)@ == apply(
                old(env)@,
                AlertCall::Register {
                    owner,
                    target_contract,
                    label: label@,
                    webhook_hash: webhook_hash@,
                    rules: strings_view(rules@),
                },
            ),
            id == old(env)@.counter(),
            final(env)@ == registered(
                old(env)@,
                owner,
                target_contract,
                label@,
                webhook_hash@,
                strings_view(rules@),
            ),
            final(env)@.alerts.contains_key(id),
            final(env)@.alerts[id].label == label@,
            final(env)@.alerts[id].webhook_hash == webhook_hash@,
            final(env)@.alerts[id].rules.len() == rules@.len(),
            forall|i: int|
                0 <= i < rules@.len() ==> final(env)@.alerts[id].rules[i] == (#[trigger] rules@[i])@,
            old(env)@.consistent() ==> !old(env)@.alerts.contains_key(id),
            old(env)@.consistent() ==> final(env)@.consistent(),
    {
        let ghost s0 = env@;
        let ghost label_view = label@;
        let ghost hash_view = webhook_hash@;
        let ghost rules_view = strings_view(rules@);
        let id = storage::next_id(env);
        let now = storage::ledger_timestamp(env);
        let config = AlertConfig {
            label,
            webhook_hash,
            rules,
            owner,
            target_contract,
            created_at: now,
            updated_at: now,
            active: true,
        };
        assert(config@ == new_config(s0, owner, target_contract, label_view, hash_view, rules_view));
        storage::set_alert(env, id, &config);
        let _ = storage::push_owner_index(env, &owner, id);
        let _ = storage::push_contract_index(env, &target_contract, id);
        storage::publish(env, AlertEvent::Registered { id, owner, target_contract });
        proof {
            if s0.consistent() {
                laws::lemma_register_consistent(
                    s0,
                    owner,
                    target_contract,
                    label_view,
                    hash_view,
                    rules_view,
                );
            }
        }
        id
    }

    /// Replaces the rules and the active flag of the alert under
    /// `config_id`, stamping the ledger's time as its update time.
    ///
    /// Fails with `AlertNotFound` when no alert is stored under the ID and
    /// with `Unauthorized` when `owner` does not own it; the state is then
    /// unchanged.
    pub fn update_alert(
        env: &mut AlertEnv,
        owner: Address,
        config_id: u64,
        rules: Vec<Vec<u8>>,
        active: bool,
    ) -> (r: Result<(), ContractError>)
        requires
            owner_check(old(env)@, owner, config_id) is Ok ==> rules_abort(
                strings_view(rules@),
            ) is None,
        ensures
            final(env)@ == apply(
                old(env)@,
                AlertCall::UpdateAlert { owner, config_id, rules: strings_view(rules@), active },
            ),
            r == owner_check(old(env)@, owner, config_id),
            r is Err ==> final(env)@ == old(env)@,
            r is Ok ==> final(env)@ == old(env)@.put_alert(
                config_id,
                AlertConfigView {
                    rules: strings_view(rules@),
                    active,
                    updated_at: old(env)@.timestamp,
                    ..old(env)@.alerts[config_id]
                },
            ),
            r is Ok ==> final(env)@.alerts[config_id].rules.len() == rules@.len(),
            r is Ok ==> forall|i: int|
                0 <= i < rules@.len() ==> final(env)@.alerts[config_id].rules[i]
                    == (#[trigger] rules@[i])@,
            old(env)@.consistent() ==> final(env)@.consistent(),
    {
        let mut config = match storage::get_alert(env, config_id) {
            Some(c) => c,
            None => {
                return Err(ContractError::AlertNotFound);
            },
        };
        match assert_owner(&config, &owner) {
            Ok(()) => {},
            Err(e) => {
                return Err(e);
            },
        }
        config.rules = rules;
        config.active = active;
        config.updated_at = storage::ledger_timestamp(env);
        let ghost s0 = env@;
        storage::set_alert(env, config_id, &config);
        proof {
            if s0.consistent() {
                laws::lemma_rewrite_consistent(s0, config_id, config@);
            }
        }
        Ok(())
    }

    /// Replaces the webhook hash of the alert under `config_id`, stamping
    /// the ledger's time as its update time.
    ///
    /// Fails with `AlertNotFound` when no alert is stored under the ID and
    /// with `Unauthorized` when `caller` does not own it; the state is then
    /// unchanged.
    pub fn update_webhook(
        env: &mut AlertEnv,
        caller: Address,
        config_id: u64,
        webhook_hash: Vec<u8>,
    ) -> (r: Result<(), ContractError>)
        ensures
            final(env)@ == apply(
                old(env)@,
                AlertCall::UpdateWebhook { caller, config_id, webhook_hash: webhook_hash@ },
            ),
            r == owner_check(old(env)@, caller, config_id),
            r is Err ==> final(env)@ == old(env)@,
            r is Ok ==> final(env)@ == old(env)@.put_alert(
                config_id,
                AlertConfigView {
                    webhook_hash: webhook_hash@,
                    updated_at: old(env)@.timestamp,
                    ..old(env)@.alerts[config_id]
                },
            ),
            old(env)@.consistent() ==> final(env)@.consistent(),
    {
        let mut config = match storage::get_alert(env, config_id) {
            Some(c) => c,
            None => {
                return Err(ContractError::AlertNotFound);
            },
        };
        match assert_owner(&config, &caller) {
            Ok(()) => {},
            Err(e) => {
                return Err(e);
            },
        }
        config.webhook_hash = webhook_hash;
        config.updated_at = storage::ledger_timestamp(env);
        let ghost s0 = env@;
        storage::set_alert(env, config_id, &config);
        proof {
            if s0.consistent() {
                laws::lemma_rewrite_consistent(s0, config_id, config@);
            }
        }
        Ok(())
    }

    /// Removes the alert under `config_id` together with its index entries
    /// and publishes `("alert", "remove")` with `(config_id, caller)`.
    ///
    /// Fails with `AlertNotFound` when no alert is stored under the ID and
    /// with `Unauthorized` when `caller` does not own it; the state is then
    /// unchanged.
    pub fn remove_alert(env: &mut AlertEnv, caller: Address, config_id: u64) -> (r: Result<
        (),
        ContractError,
    >)
        ensures
            final(env)@ == apply(old(env)@, AlertCall::Remove { caller, config_id }),
            r == owner_check(old(env)@, caller, config_id),
            r is Err ==> final(env)@ == old(env)@,
            r is Ok ==> final(env)@ == removed(old(env)@, config_id, caller),
            old(env)@.consistent() ==> final(env)@.consistent(),
    {
        let config = match storage::get_alert(env, config_id) {
            Some(c) => c,
            None => {
                return Err(ContractError::AlertNotFound);
            },
        };
        match assert_owner(&config, &caller) {
            Ok(()) => {},
            Err(e) => {
                return Err(e);
            },
        }
        remove_alert_record(env, &config, config_id, &caller);
        Ok(())
    }

    /// The alert stored under `config_id`, or `None`.
    pub fn get_alert(env: &AlertEnv, config_id: u64) -> (r: Option<AlertConfig>)
        ensures
            match r {
                Some(c) => env@.alerts.contains_key(config_id) && c@ == env@.alerts[config_id],
                None => !env@.alerts.contains_key(config_id),
            },
    {
        storage::get_alert(env, config_id)
    }

    /// Sets the admin; only possible while none is set.
    pub fn initialize(env: &mut AlertEnv, admin: Address) -> (r: Result<(), ContractError>)
        ensures
            final(env)@ == apply(old(env)@, AlertCall::Initialize { admin }),
            old(env)@.admin is Some ==> r == Err::<(), ContractError>(
                ContractError::AlreadyInitialized,
            ) && final(env)@ == old(env)@,
            old(env)@.admin is None ==> r == Ok::<(), ContractError>(()) && final(env)@ == (
            AlertState { admin: Some(admin), ..old(env)@ }),
            old(env)@.consistent() ==> final(env)@.consistent(),
    {
        if storage::has_admin(env) {
            return Err(ContractError::AlreadyInitialized);
        }
        storage::set_admin(env, &admin);
        proof {
            if old(env)@.consistent() {
                laws::lemma_consistent_frame(old(env)@, env@);
            }
        }
        Ok(())
    }

    /// Hands the admin role from `admin` to `new_admin`.
    ///
    /// Fails with `NotInitialized` when no admin is set and with
    /// `Unauthorized` when `admin` is not the admin; the state is then
    /// unchanged.
    pub fn transfer_admin(env: &mut AlertEnv, admin: Address, new_admin: Address) -> (r: Result<
        (),
        ContractError,
    >)
        ensures
            final(env)@ == apply(old(env)@, AlertCall::TransferAdmin { admin, new_admin }),
            r == admin_check(old(env)@, admin),
            r is Err ==> final(env)@ == old(env)@,
            r is Ok ==> final(env)@ == (AlertState { admin: Some(new_admin), ..old(env)@ }),
            old(env)@.consistent() ==> final(env)@.consistent(),
    {
        match assert_admin(env, &admin) {
            Ok(()) => {},
            Err(e) => {
                return Err(e);
            },
        }
        storage::set_admin(env, &new_admin);
        proof {
            if old(env)@.consistent() {
                laws::lemma_consistent_frame(old(env)@, env@);
            }
        }
        Ok(())
    }

    /// The admin, or `NotInitialized` when none is set.
    pub fn get_admin(env: &AlertEnv) -> (r: Result<Address, ContractError>)
        ensures
            r == match env@.admin {
                Some(a) => Ok::<Address, ContractError>(a),
                None => Err(ContractError::NotInitialized),
            },
    {
        match storage::get_admin(env) {
            Some(a) => Ok(a),
            None => Err(ContractError::NotInitialized),
        }
    }

    /// Sets the per-owner limit on stored alerts (`0` means no limit).
    ///
    /// Fails with `NotInitialized` when no admin is set and with
    /// `Unauthorized` when `admin` is not the admin; the state is then
    /// unchanged.
    pub fn set_per_owner_alert_limit(env: &mut AlertEnv, admin: Address, limit: u32) -> (r: Result<
        (),
        ContractError,
    >)
        ensures
            final(env)@ == apply(old(env)@, AlertCall::SetLimit { admin, limit }),
            r == admin_check(old(env)@, admin),
            r is Err ==> final(env)@ == old(env)@,
            r is Ok ==> final(env)@ == (AlertState { limit: Some(limit), ..old(env)@ }),
            old(env)@.consistent() ==> final(env)@.consistent(),
    {
        match assert_admin(env, &admin) {
            Ok(()) => {},
            Err(e) => {
                return Err(e);
            },
        }
        storage::set_limit(env, limit);
        proof {
            if old(env)@.consistent() {
                laws::lemma_consistent_frame(old(env)@, env@);
            }
        }
        Ok(())
    }

    /// The per-owner limit, `0` when none is set.
    pub fn get_per_owner_alert_limit(env: &AlertEnv) -> (l: u32)
        ensures
            l == env@.limit_value(),
    {
        storage::get_limit(env)
    }

    /// Removes any alert on behalf of the admin, with its index entries, and
    /// publishes `("alert", "remove")` with `(config_id, admin)`.
    ///
    /// The admin is checked first (`NotInitialized`, `Unauthorized`), then
    /// the alert (`AlertNotFound`); on any error the state is unchanged.
    pub fn remove_alert_by_admin(env: &mut AlertEnv, admin: Address, config_id: u64) -> (r: Result<
        (),
        ContractError,
    >)
        ensures
            final(env)@ == apply(old(env)@, AlertCall::RemoveByAdmin { admin, config_id }),
            r == match admin_check(old(env)@, admin) {
                Err(e) => Err(e),
                Ok(()) => if old(env)@.alerts.contains_key(config_id) {
                    Ok::<(), ContractError>(())
                } else {
                    Err(ContractError::AlertNotFound)
                },
            },
            r is Err ==> final(env)@ == old(env)@,
            r is Ok ==> final(env)@ == removed(old(env)@, config_id, admin),
            old(env)@.consistent() ==> final(env)@.consistent(),
    {
        match assert_admin(env, &admin) {
            Ok(()) => {},
            Err(e) => {
                return Err(e);
            },
        }
        let config = match storage::get_alert(env, config_id) {
            Some(c) => c,
            None => {
                return Err(ContractError::AlertNotFound);
            },
        };
        remove_alert_record(env, &config, config_id, &admin);
        Ok(())
    }

    /// Points the registry at a watcher registry; from then on the alert
    /// queries answer only the watchers it authorizes.
    ///
    /// Fails with `NotInitialized` when no admin is set and with
    /// `Unauthorized` when `admin` is not the admin; the state is then
    /// unchanged.
    pub fn set_watcher_registry(env: &mut AlertEnv, admin: Address, registry: Address) -> (r:
        Result<(), ContractError>)
        ensures
            final(env)@ == apply(old(env)@, AlertCall::SetWatcherRegistry { admin, registry }),
            r == admin_check(old(env)@, admin),
            r is Err ==> final(env)@ == old(env)@,
            r is Ok ==> final(env)@ == (AlertState {
                watcher_registry: Some(registry),
                ..old(env)@
            }),
            old(env)@.consistent() ==> final(env)@.consistent(),
    {
        match assert_admin(env, &admin) {
            Ok(()) => {},
            Err(e) => {
                return Err(e);
            },
        }
        storage::set_watcher_registry(env, &registry);
        proof {
            if old(env)@.consistent() {
                laws::lemma_consistent_frame(old(env)@, env@);
            }
        }
        Ok(())
    }

    /// The watcher registry gating the alert queries, if one is set.
    pub fn get_watcher_registry(env: &AlertEnv) -> (r: Option<Address>)
        ensures
            r == env@.watcher_registry,
    {
        storage::get_watcher_registry(env)
    }

    /// The stored alerts watching `target_contract`, in index order, for
    /// `caller`. When a watcher registry is set, `caller_is_watcher` is its
    /// answer to whether it authorizes `caller`, and a caller it does not
    /// authorize is refused with `NotAWatcher`.
    pub fn get_alerts_for_contract(
        env: &AlertEnv,
        caller: Address,
        target_contract: Address,
        caller_is_watcher: bool,
    ) -> (r: Result<Vec<AlertConfig>, ContractError>)
        ensures
            match r {
                Ok(v) => watcher_check(env@, caller_is_watcher) is Ok && configs_view(v@)
                    == configs_of(env@.alerts, env@.contract_ids(target_contract)),
                Err(e) => watcher_check(env@, caller_is_watcher) == Err::<(), ContractError>(e),
            },
    {
        let _ = caller;
        if storage::get_watcher_registry(env).is_some() && !caller_is_watcher {
            return Err(ContractError::NotAWatcher);
        }
        let ids = storage::contract_index(env, &target_contract);
        Ok(storage::configs_for_ids(env, &ids))
    }

    /// The stored alerts owned by `owner`, in index order, for `caller`.
    /// When a watcher registry is set, `caller_is_watcher` is its answer to
    /// whether it authorizes `caller`, and a caller it does not authorize is
    /// refused with `NotAWatcher`.
    pub fn get_alerts_by_owner(
        env: &AlertEnv,
        caller: Address,
        owner: Address,
        caller_is_watcher: bool,
    ) -> (r: Result<Vec<AlertConfig>, ContractError>)
        ensures
            match r {
                Ok(v) => watcher_check(env@, caller_is_watcher) is Ok && configs_view(v@)
                    == configs_of(env@.alerts, env@.owner_ids(owner)),
                Err(e) => watcher_check(env@, caller_is_watcher) == Err::<(), ContractError>(e),
            },
    {
        let _ = caller;
        if storage::get_watcher_registry(env).is_some() && !caller_is_watcher {
            return Err(ContractError::NotAWatcher);
        }
        let ids = storage::owner_index(env, &owner);
        Ok(storage::configs_for_ids(env, &ids))
    }

    /// The stored alerts among the window `[offset, offset + limit)` of
    /// `target_contract`'s index.
    pub fn get_contract_alerts_paginated(
        env: &AlertEnv,
        target_contract: Address,
        offset: u32,
        limit: u32,
    ) -> (r: Vec<AlertConfig>)
        ensures
            configs_view(r@) == configs_of(
                env@.alerts,
                page(env@.contract_ids(target_contract), offset, limit),
            ),
    {
        let ids = storage::contract_index(env, &target_contract);
        storage::configs_paginated(env, &ids, offset, limit)
    }

    /// The stored alerts among the window `[offset, offset + limit)` of
    /// `owner`'s index.
    pub fn get_alerts_by_owner_paginated(
        env: &AlertEnv,
        owner: Address,
        offset: u32,
        limit: u32,
    ) -> (r: Vec<AlertConfig>)
        ensures
            configs_view(r@) == configs_of(env@.alerts, page(env@.owner_ids(owner), offset, limit)),
    {
        let ids = storage::owner_index(env, &owner);
        storage::configs_paginated(env, &ids, offset, limit)
    }

    /// The number of alerts ever registered: the ID counter, which removals
    /// do not decrease.
    pub fn get_alert_count(env: &AlertEnv) -> (n: u64)
        ensures
            n == env@.counter(),
    {
        storage::peek_next_id(env)
    }

    /// The number of IDs in `owner`'s index that still have a stored alert.
    pub fn get_active_alert_count(env: &AlertEnv, owner: Address) -> (n: u32)
        ensures
            n == active_count(env@, owner),
    {
        let ids = storage::owner_index(env, &owner);
        count_stored(env, &ids)
    }
}

} // verus!
