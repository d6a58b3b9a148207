//! Properties of the alert registry that span several operations.
use vstd::prelude::*;
use vstd::string::StringSliceAdditionalSpecFns;

use crate::address::Address;
use crate::alert_registry::contract::{
    AlertCall, active_count, admin_check, valid_rule, watcher_check, apply, apply_all, new_config, over_limit, owner_check,
    register_abort, registered, removed, rules_abort,
};
use crate::alert_registry::types::{Abort, AlertEvent, ContractError, DataKey, DEFAULT_TTL};
use crate::alert_registry::storage::{AlertState, configs_of, page, window, without_id};
use crate::lists::{lemma_push_fresh, lemma_without};
use crate::watcher_registry::{WatcherState, watcher_registration_laws};
use crate::alert_registry::types::AlertConfigView;

verus! {

/// Taking `id` out of a list keeps exactly the other elements, and keeps a
/// duplicate-free list duplicate-free.
pub proof fn lemma_without_id(ids: Seq<u64>, id: u64)
    ensures
        forall|x: u64| #[trigger] without_id(ids, id).contains(x) <==> (ids.contains(x) && x != id),
        ids.no_duplicates() ==> without_id(ids, id).no_duplicates(),
{
    lemma_without(ids, id);
}

/// Consistency depends on the alerts, the two indexes and the counter
/// alone.
pub proof fn lemma_consistent_frame(s: AlertState, t: AlertState)
    requires
        s.consistent(),
        t.alerts == s.alerts,
        t.owner_index == s.owner_index,
        t.contract_index == s.contract_index,
        t.next_id == s.next_id,
    ensures
        t.consistent(),
{
    assert forall|o: Address| #[trigger] t.owner_ids(o) == s.owner_ids(o) by {}
    assert forall|o: Address| #[trigger] t.contract_ids(o) == s.contract_ids(o) by {}
}

/// Registration keeps the registry consistent, and the new ID was not in
/// use: no alert was stored under it and no index listed it.
pub proof fn lemma_register_consistent(
    s: AlertState,
    owner: Address,
    target_contract: Address,
    label: Seq<u8>,
    webhook_hash: Seq<u8>,
    rules: Seq<Seq<u8>>,
)
    requires
        s.consistent(),
        s.counter() < u64::MAX,
    ensures
        !s.alerts.contains_key(s.counter()),
        !s.owner_ids(owner).contains(s.counter()),
        !s.contract_ids(target_contract).contains(s.counter()),
        registered(s, owner, target_contract, label, webhook_hash, rules).consistent(),
        registered(s, owner, target_contract, label, webhook_hash, rules).owner_ids(owner)
            == s.owner_ids(owner).push(s.counter()),
{
    let id = s.counter();
    let cfg = new_config(s, owner, target_contract, label, webhook_hash, rules);
    let s2 = s.advance_counter().put_alert(id, cfg);
    let s3 = s2.push_owner(owner, id);
    let s4 = s3.push_contract(target_contract, id);
    let s5 = registered(s, owner, target_contract, label, webhook_hash, rules);
    assert(s2.owner_ids(owner) == s.owner_ids(owner));
    assert(s3 == s2.put_owner_ids(owner, s.owner_ids(owner).push(id)));
    assert(s3.contract_ids(target_contract) == s.contract_ids(target_contract));
    assert(s4 == s3.put_contract_ids(target_contract, s.contract_ids(target_contract).push(id)));
    lemma_push_fresh(s.owner_ids(owner), id);
    lemma_push_fresh(s.contract_ids(target_contract), id);
    assert(s5.owner_ids(owner) == s.owner_ids(owner).push(id));
    assert forall|o: Address| o != owner implies #[trigger] s5.owner_ids(o) == s.owner_ids(o) by {}
    assert forall|t: Address| t != target_contract implies #[trigger] s5.contract_ids(t)
        == s.contract_ids(t) by {}
    assert forall|x: u64| #[trigger] s5.alerts.contains_key(x) implies s5.owner_ids(
        s5.alerts[x].owner,
    ).contains(x) && s5.contract_ids(s5.alerts[x].target_contract).contains(x) by {
        if x != id {
            assert(s.alerts.contains_key(x));
            assert(s.owner_ids(s.alerts[x].owner).contains(x));
            assert(s.contract_ids(s.alerts[x].target_contract).contains(x));
        }
    }
    assert forall|o: Address, x: u64| #[trigger] s5.owner_ids(o).contains(x) implies s5.alerts.contains_key(x)
        && s5.alerts[x].owner == o by {
        if o != owner || x != id {
            assert(s.owner_ids(o).contains(x));
        }
    }
    assert forall|t: Address, x: u64| #[trigger] s5.contract_ids(t).contains(x) implies s5.alerts.contains_key(x)
        && s5.alerts[x].target_contract == t by {
        if t != target_contract || x != id {
            assert(s.contract_ids(t).contains(x));
        }
    }
    assert forall|o: Address| #[trigger] s5.owner_ids(o).no_duplicates() by {
        if o != owner {
            assert(s.owner_ids(o).no_duplicates());
        }
    }
    assert forall|t: Address| #[trigger] s5.contract_ids(t).no_duplicates() by {
        if t != target_contract {
            assert(s.contract_ids(t).no_duplicates());
        }
    }
}

/// Removing a stored alert keeps the registry consistent and unlists its ID
/// everywhere.
pub proof fn lemma_remove_consistent(s: AlertState, id: u64, caller: Address)
    requires
        s.consistent(),
        s.alerts.contains_key(id),
    ensures
        removed(s, id, caller).consistent(),
        forall|o: Address| !(#[trigger] removed(s, id, caller).owner_ids(o)).contains(id),
        forall|t: Address| !(#[trigger] removed(s, id, caller).contract_ids(t)).contains(id),
{
    let cfg = s.alerts[id];
    let r = removed(s, id, caller);
    let ow = cfg.owner;
    let tg = cfg.target_contract;
    lemma_without_id(s.owner_ids(ow), id);
    lemma_without_id(s.contract_ids(tg), id);
    assert(r.owner_ids(ow) == without_id(s.owner_ids(ow), id));
    assert(r.contract_ids(tg) == without_id(s.contract_ids(tg), id));
    assert forall|o: Address| o != ow implies #[trigger] r.owner_ids(o) == s.owner_ids(o) by {}
    assert forall|t: Address| t != tg implies #[trigger] r.contract_ids(t) == s.contract_ids(t) by {}
    assert forall|o: Address| !(#[trigger] r.owner_ids(o)).contains(id) by {
        if o != ow && s.owner_ids(o).contains(id) {
            assert(s.alerts[id].owner == o);
        }
    }
    assert forall|t: Address| !(#[trigger] r.contract_ids(t)).contains(id) by {
        if t != tg && s.contract_ids(t).contains(id) {
            assert(s.alerts[id].target_contract == t);
        }
    }
    assert forall|x: u64| #[trigger] r.alerts.contains_key(x) implies r.owner_ids(
        r.alerts[x].owner,
    ).contains(x) && r.contract_ids(r.alerts[x].target_contract).contains(x) by {
        assert(s.alerts.contains_key(x));
        assert(s.owner_ids(s.alerts[x].owner).contains(x));
        assert(s.contract_ids(s.alerts[x].target_contract).contains(x));
    }
    assert forall|o: Address, x: u64| #[trigger] r.owner_ids(o).contains(x) implies r.alerts.contains_key(x)
        && r.alerts[x].owner == o by {
        assert(s.owner_ids(o).contains(x));
    }
    assert forall|t: Address, x: u64| #[trigger] r.contract_ids(t).contains(x) implies r.alerts.contains_key(x)
        && r.alerts[x].target_contract == t by {
        assert(s.contract_ids(t).contains(x));
    }
    assert forall|o: Address| #[trigger] r.owner_ids(o).no_duplicates() by {
        if o != ow {
            assert(s.owner_ids(o).no_duplicates());
        }
    }
    assert forall|t: Address| #[trigger] r.contract_ids(t).no_duplicates() by {
        if t != tg {
            assert(s.contract_ids(t).no_duplicates());
        }
    }
}

/// Rewriting a stored alert with a configuration of the same owner and
/// target keeps the registry consistent.
pub proof fn lemma_rewrite_consistent(s: AlertState, id: u64, cfg: AlertConfigView)
    requires
        s.consistent(),
        s.alerts.contains_key(id),
        cfg.owner == s.alerts[id].owner,
        cfg.target_contract == s.alerts[id].target_contract,
    ensures
        s.put_alert(id, cfg).consistent(),
{
    let r = s.put_alert(id, cfg);
    assert forall|o: Address| #[trigger] r.owner_ids(o) == s.owner_ids(o) by {}
    assert forall|t: Address| #[trigger] r.contract_ids(t) == s.contract_ids(t) by {}
    assert forall|x: u64| #[trigger] r.alerts.contains_key(x) implies r.owner_ids(
        r.alerts[x].owner,
    ).contains(x) && r.contract_ids(r.alerts[x].target_contract).contains(x) by {
        assert(s.owner_ids(s.alerts[x].owner).contains(x));
    }
    assert forall|o: Address, x: u64| #[trigger] r.owner_ids(o).contains(x) implies r.alerts.contains_key(x)
        && r.alerts[x].owner == o by {
        assert(s.owner_ids(o).contains(x));
    }
    assert forall|t: Address, x: u64| #[trigger] r.contract_ids(t).contains(x) implies r.alerts.contains_key(x)
        && r.alerts[x].target_contract == t by {
        assert(s.contract_ids(t).contains(x));
    }
    assert forall|o: Address| #[trigger] r.owner_ids(o).no_duplicates() by {
        assert(s.owner_ids(o).no_duplicates());
    }
    assert forall|t: Address| #[trigger] r.contract_ids(t).no_duplicates() by {
        assert(s.contract_ids(t).no_duplicates());
    }
}

/// A registration stores, under the returned ID (the old counter value),
/// exactly the label, webhook hash and rules it was given, with the given
/// owner and target, active and stamped with the ledger time; it appends
/// the ID to the owner's and the target's index, leaves every other alert
/// and the instance settings as they were, publishes the registration, and
/// advances the alert count by one.
pub proof fn registration_reads_back(
    s: AlertState,
    owner: Address,
    target_contract: Address,
    label: Seq<u8>,
    webhook_hash: Seq<u8>,
    rules: Seq<Seq<u8>>,
)
    requires
        s.counter() < u64::MAX,
    ensures
        ({
            let r = registered(s, owner, target_contract, label, webhook_hash, rules);
            let id = s.counter();
            &&& r.alerts.contains_key(id)
            &&& r.alerts[id].label == label
            &&& r.alerts[id].webhook_hash == webhook_hash
            &&& r.alerts[id].rules == rules
            &&& r.alerts[id].owner == owner
            &&& r.alerts[id].target_contract == target_contract
            &&& r.alerts[id].active
            &&& r.alerts[id].created_at == s.timestamp
            &&& r.alerts[id].updated_at == s.timestamp
            &&& r.alerts[id] == new_config(s, owner, target_contract, label, webhook_hash, rules)
            &&& r.counter() == id + 1
            &&& r.owner_ids(owner) == s.owner_ids(owner).push(id)
            &&& r.contract_ids(target_contract) == s.contract_ids(target_contract).push(id)
            &&& (forall|k: u64|
                k != id ==> (#[trigger] r.alerts.contains_key(k) == s.alerts.contains_key(k)
                    && (s.alerts.contains_key(k) ==> r.alerts[k] == s.alerts[k])))
            &&& (forall|o: Address| o != owner ==> #[trigger] r.owner_ids(o) == s.owner_ids(o))
            &&& (forall|t: Address|
                t != target_contract ==> #[trigger] r.contract_ids(t) == s.contract_ids(t))
            &&& r.admin == s.admin
            &&& r.limit == s.limit
            &&& r.watcher_registry == s.watcher_registry
            &&& r.timestamp == s.timestamp
            &&& r.events == s.events.push(AlertEvent::Registered { id, owner, target_contract })
        }),
{
    let r = registered(s, owner, target_contract, label, webhook_hash, rules);
    assert forall|o: Address| o != owner implies #[trigger] r.owner_ids(o) == s.owner_ids(o) by {}
    assert forall|t: Address| t != target_contract implies #[trigger] r.contract_ids(t)
        == s.contract_ids(t) by {}
}

/// A list of rule descriptors is refused only for holding more than 50
/// descriptors or for a descriptor that is neither `rule:transfer` nor
/// `rule:mint`; any list of at most 50 such descriptors, in any mix and
/// order, is accepted.
pub proof fn rules_are_refused_only_when_invalid(rules: Seq<Seq<u8>>)
    ensures
        rules_abort(rules) is None <==> (rules.len() <= 50 && forall|i: int|
            0 <= i < rules.len() ==> (#[trigger] rules[i] == "rule:transfer".spec_bytes()
                || rules[i] == "rule:mint".spec_bytes())),
        rules_abort(rules) == Some(Abort::TooManyRules) <==> rules.len() > 50,
        rules_abort(rules) == Some(Abort::InvalidRuleDescriptor) <==> (rules.len() <= 50
            && exists|i: int|
            0 <= i < rules.len() && #[trigger] rules[i] != "rule:transfer".spec_bytes()
                && rules[i] != "rule:mint".spec_bytes()),
        rules_abort(rules) is None || rules_abort(rules) == Some(Abort::TooManyRules)
            || rules_abort(rules) == Some(Abort::InvalidRuleDescriptor),
{
    if rules.len() <= 50 {
        if exists|i: int| 0 <= i < rules.len() && !valid_rule(#[trigger] rules[i]) {
            let i = choose|i: int| 0 <= i < rules.len() && !valid_rule(#[trigger] rules[i]);
            assert(rules[i] != "rule:transfer".spec_bytes() && rules[i] != "rule:mint".spec_bytes());
        }
        if exists|i: int|
            0 <= i < rules.len() && #[trigger] rules[i] != "rule:transfer".spec_bytes()
                && rules[i] != "rule:mint".spec_bytes() {
            let i = choose|i: int|
                0 <= i < rules.len() && #[trigger] rules[i] != "rule:transfer".spec_bytes()
                    && rules[i] != "rule:mint".spec_bytes();
            assert(!valid_rule(rules[i]));
        }
    }
}

/// The number of stored alerts among `ids`: the IDs with a stored alert.
pub proof fn lemma_configs_len(alerts: Map<u64, AlertConfigView>, ids: Seq<u64>)
    ensures
        configs_of(alerts, ids).len() == ids.filter(|id: u64| alerts.contains_key(id)).len(),
    decreases ids.len(),
{
    let p = |id: u64| alerts.contains_key(id);
    if ids.len() > 0 {
        lemma_configs_len(alerts, ids.drop_last());
        ids.drop_last().lemma_filter_push(ids.last(), p);
        assert(ids.drop_last().push(ids.last()) =~= ids);
    } else {
        assert(ids.filter(p) =~= Seq::<u64>::empty()) by {
            ids.lemma_filter_len(p);
        }
    }
}

/// An owner's active alert count counts the IDs in its index that still
/// have a stored alert (an ID whose entry expired or was removed is not
/// counted, in any state); the per-owner limit is reached when that count
/// reaches a non-zero limit.
pub proof fn active_count_counts_stored_alerts(s: AlertState, owner: Address)
    ensures
        active_count(s, owner) == s.owner_ids(owner).filter(|id: u64| s.alerts.contains_key(id)).len(),
        active_count(s, owner) <= s.owner_ids(owner).len(),
        over_limit(s, owner) <==> (s.limit_value() > 0 && s.owner_ids(owner).filter(
            |id: u64| s.alerts.contains_key(id),
        ).len() >= s.limit_value()),
{
    lemma_configs_len(s.alerts, s.owner_ids(owner));
    s.owner_ids(owner).lemma_filter_len(|id: u64| s.alerts.contains_key(id));
}

/// Removing an alert deletes it, takes its ID out of its owner's and its
/// target's index (and leaves the other IDs listed there, and every other
/// index, as they were), keeps the alert count and the instance settings,
/// leaves every other stored alert as it was, and publishes the removal.
pub proof fn removal_deletes_only_that_alert(s: AlertState, id: u64, caller: Address)
    requires
        s.alerts.contains_key(id),
    ensures
        !removed(s, id, caller).alerts.contains_key(id),
        removed(s, id, caller).counter() == s.counter(),
        forall|x: u64|
            x != id ==> #[trigger] removed(s, id, caller).alerts.get(x) == s.alerts.get(x),
        forall|x: u64|
            #[trigger] removed(s, id, caller).owner_ids(s.alerts[id].owner).contains(x) <==> (
            s.owner_ids(s.alerts[id].owner).contains(x) && x != id),
        forall|x: u64|
            #[trigger] removed(s, id, caller).contract_ids(s.alerts[id].target_contract).contains(x)
                <==> (s.contract_ids(s.alerts[id].target_contract).contains(x) && x != id),
        forall|o: Address|
            o != s.alerts[id].owner ==> #[trigger] removed(s, id, caller).owner_ids(o)
                == s.owner_ids(o),
        forall|t: Address|
            t != s.alerts[id].target_contract ==> #[trigger] removed(s, id, caller).contract_ids(t)
                == s.contract_ids(t),
        removed(s, id, caller).admin == s.admin,
        removed(s, id, caller).limit == s.limit,
        removed(s, id, caller).watcher_registry == s.watcher_registry,
        removed(s, id, caller).events == s.events.push(AlertEvent::Removed { id, caller }),
{
    let cfg = s.alerts[id];
    let r = removed(s, id, caller);
    lemma_without(s.owner_ids(cfg.owner), id);
    lemma_without(s.contract_ids(cfg.target_contract), id);
    assert(r.owner_ids(cfg.owner) == without_id(s.owner_ids(cfg.owner), id));
    assert(r.contract_ids(cfg.target_contract) == without_id(
        s.contract_ids(cfg.target_contract),
        id,
    ));
    assert forall|o: Address| o != cfg.owner implies #[trigger] r.owner_ids(o) == s.owner_ids(o) by {}
    assert forall|t: Address| t != cfg.target_contract implies #[trigger] r.contract_ids(t)
        == s.contract_ids(t) by {}
}

/// A committed rules update stores exactly the given rules and activity
/// flag and the ledger time as the update time, keeps the label, webhook
/// hash, owner, target and creation time; a committed webhook update stores
/// exactly the given hash and keeps everything else but the update time.
/// Neither touches another alert, an index or the alert count, and a call
/// by anyone but the owner, or for a missing alert, changes nothing.
pub proof fn updates_rewrite_only_the_named_fields(
    s: AlertState,
    caller: Address,
    id: u64,
    rules: Seq<Seq<u8>>,
    active: bool,
    webhook_hash: Seq<u8>,
)
    ensures
        ({
            let r = apply(s, AlertCall::UpdateAlert { owner: caller, config_id: id, rules, active });
            &&& (s.alerts.contains_key(id) && s.alerts[id].owner == caller && rules_abort(rules)
                is None) ==> {
                &&& r.alerts.contains_key(id)
                &&& r.alerts[id].rules == rules
                &&& r.alerts[id].active == active
                &&& r.alerts[id].updated_at == s.timestamp
                &&& r.alerts[id].label == s.alerts[id].label
                &&& r.alerts[id].webhook_hash == s.alerts[id].webhook_hash
                &&& r.alerts[id].owner == s.alerts[id].owner
                &&& r.alerts[id].target_contract == s.alerts[id].target_contract
                &&& r.alerts[id].created_at == s.alerts[id].created_at
                &&& (forall|x: u64| x != id ==> #[trigger] r.alerts.get(x) == s.alerts.get(x))
                &&& r.owner_index == s.owner_index
                &&& r.contract_index == s.contract_index
                &&& r.counter() == s.counter()
            }
            &&& (!s.alerts.contains_key(id) || s.alerts[id].owner != caller) ==> r == s
        }),
        ({
            let r = apply(s, AlertCall::UpdateWebhook { caller, config_id: id, webhook_hash });
            &&& (s.alerts.contains_key(id) && s.alerts[id].owner == caller) ==> {
                &&& r.alerts.contains_key(id)
                &&& r.alerts[id].webhook_hash == webhook_hash
                &&& r.alerts[id].updated_at == s.timestamp
                &&& r.alerts[id].rules == s.alerts[id].rules
                &&& r.alerts[id].active == s.alerts[id].active
                &&& r.alerts[id].label == s.alerts[id].label
                &&& r.alerts[id].owner == s.alerts[id].owner
                &&& r.alerts[id].target_contract == s.alerts[id].target_contract
                &&& r.alerts[id].created_at == s.alerts[id].created_at
                &&& (forall|x: u64| x != id ==> #[trigger] r.alerts.get(x) == s.alerts.get(x))
                &&& r.owner_index == s.owner_index
                &&& r.contract_index == s.contract_index
                &&& r.counter() == s.counter()
            }
            &&& (!s.alerts.contains_key(id) || s.alerts[id].owner != caller) ==> r == s
        }),
{
}

/// The stored configurations of `a + b` are those of `a` followed by those
/// of `b`.
pub proof fn lemma_configs_concat(alerts: Map<u64, AlertConfigView>, a: Seq<u64>, b: Seq<u64>)
    ensures
        configs_of(alerts, a + b) == configs_of(alerts, a) + configs_of(alerts, b),
    decreases b.len(),
{
    if b.len() == 0 {
        assert(a + b =~= a);
        assert(configs_of(alerts, a) + configs_of(alerts, b) =~= configs_of(alerts, a));
    } else {
        lemma_configs_concat(alerts, a, b.drop_last());
        assert((a + b).drop_last() =~= a + b.drop_last());
        assert((a + b).last() == b.last());
        if alerts.contains_key(b.last()) {
            assert(configs_of(alerts, a) + configs_of(alerts, b) =~= (configs_of(alerts, a)
                + configs_of(alerts, b.drop_last())).push(alerts[b.last()]));
        }
    }
}

/// Consecutive pages concatenate: the page of `l1` items at `offset`
/// followed by the page of `l2` items at `offset + l1` is the page of
/// `l1 + l2` items at `offset`; and one page of the whole length is the
/// whole list.
pub proof fn pages_concatenate(
    alerts: Map<u64, AlertConfigView>,
    ids: Seq<u64>,
    offset: u32,
    l1: u32,
    l2: u32,
)
    requires
        offset + l1 + l2 <= u32::MAX,
        ids.len() <= u32::MAX,
    ensures
        configs_of(alerts, page(ids, offset, l1)) + configs_of(
            alerts,
            page(ids, (offset + l1) as u32, l2),
        ) == configs_of(alerts, page(ids, offset, (l1 + l2) as u32)),
        configs_of(alerts, page(ids, 0, ids.len() as u32)) == configs_of(alerts, ids),
{
    let p1 = page(ids, offset, l1);
    let p2 = page(ids, (offset + l1) as u32, l2);
    assert(p1 + p2 =~= page(ids, offset, (l1 + l2) as u32));
    lemma_configs_concat(alerts, p1, p2);
    assert(page(ids, 0, ids.len() as u32) =~= ids);
}

/// When every listed ID is stored, the stored configurations of a list are
/// its IDs' configurations, one for one.
pub proof fn lemma_configs_all_stored(alerts: Map<u64, AlertConfigView>, ids: Seq<u64>)
    requires
        forall|i: int| 0 <= i < ids.len() ==> alerts.contains_key(#[trigger] ids[i]),
    ensures
        configs_of(alerts, ids) == ids.map_values(|id: u64| alerts[id]),
    decreases ids.len(),
{
    if ids.len() > 0 {
        let rest = ids.drop_last();
        assert forall|i: int| 0 <= i < rest.len() implies alerts.contains_key(#[trigger] rest[i]) by {
            assert(rest[i] == ids[i]);
        }
        lemma_configs_all_stored(alerts, rest);
        assert(alerts.contains_key(ids[ids.len() - 1]));
        assert(ids.map_values(|id: u64| alerts[id]) =~= rest.map_values(|id: u64| alerts[id]).push(
            alerts[ids.last()],
        ));
    }
}

/// In a consistent registry, the alerts returned for an owner are exactly
/// the stored alerts that owner owns, each once, and the owner's active
/// count is their number.
pub proof fn owner_query_is_exact(s: AlertState, owner: Address)
    requires
        s.consistent(),
    ensures
        configs_of(s.alerts, s.owner_ids(owner)).len() == s.owner_ids(owner).len(),
        active_count(s, owner) == s.owner_ids(owner).len(),
        forall|i: int|
            0 <= i < s.owner_ids(owner).len() ==> (#[trigger] configs_of(
                s.alerts,
                s.owner_ids(owner),
            )[i]).owner == owner,
        forall|id: u64|
            #[trigger] s.alerts.contains_key(id) && s.alerts[id].owner == owner ==> configs_of(
                s.alerts,
                s.owner_ids(owner),
            ).contains(s.alerts[id]),
{
    let ids = s.owner_ids(owner);
    assert forall|i: int| 0 <= i < ids.len() implies s.alerts.contains_key(#[trigger] ids[i]) by {
        assert(ids.contains(ids[i]));
    }
    lemma_configs_all_stored(s.alerts, ids);
    assert forall|i: int| 0 <= i < ids.len() implies (#[trigger] configs_of(s.alerts, ids)[i]).owner
        == owner by {
        assert(ids.contains(ids[i]));
    }
    assert forall|id: u64| #[trigger]
        s.alerts.contains_key(id) && s.alerts[id].owner == owner implies configs_of(
        s.alerts,
        ids,
    ).contains(s.alerts[id]) by {
        assert(ids.contains(id));
        let k = choose|k: int| 0 <= k < ids.len() && ids[k] == id;
        assert(configs_of(s.alerts, ids)[k] == s.alerts[id]);
    }
}

/// In a consistent registry, the alerts returned for a watched contract are
/// exactly the stored alerts watching it, each once.
pub proof fn contract_query_is_exact(s: AlertState, target: Address)
    requires
        s.consistent(),
    ensures
        configs_of(s.alerts, s.contract_ids(target)).len() == s.contract_ids(target).len(),
        forall|i: int|
            0 <= i < s.contract_ids(target).len() ==> (#[trigger] configs_of(
                s.alerts,
                s.contract_ids(target),
            )[i]).target_contract == target,
        forall|id: u64|
            #[trigger] s.alerts.contains_key(id) && s.alerts[id].target_contract == target
                ==> configs_of(s.alerts, s.contract_ids(target)).contains(s.alerts[id]),
{
    let ids = s.contract_ids(target);
    assert forall|i: int| 0 <= i < ids.len() implies s.alerts.contains_key(#[trigger] ids[i]) by {
        assert(ids.contains(ids[i]));
    }
    lemma_configs_all_stored(s.alerts, ids);
    assert forall|i: int| 0 <= i < ids.len() implies (#[trigger] configs_of(
        s.alerts,
        ids,
    )[i]).target_contract == target by {
        assert(ids.contains(ids[i]));
    }
    assert forall|id: u64| #[trigger]
        s.alerts.contains_key(id) && s.alerts[id].target_contract == target implies configs_of(
        s.alerts,
        ids,
    ).contains(s.alerts[id]) by {
        assert(ids.contains(id));
        let k = choose|k: int| 0 <= k < ids.len() && ids[k] == id;
        assert(configs_of(s.alerts, ids)[k] == s.alerts[id]);
    }
}

/// With a per-owner limit set, a registration the limit lets through never
/// leaves the owner with more stored alerts than the limit.
pub proof fn limit_is_never_exceeded(
    s: AlertState,
    owner: Address,
    target_contract: Address,
    label: Seq<u8>,
    webhook_hash: Seq<u8>,
    rules: Seq<Seq<u8>>,
)
    requires
        s.consistent(),
        s.counter() < u64::MAX,
        s.limit_value() > 0,
        !over_limit(s, owner),
    ensures
        active_count(registered(s, owner, target_contract, label, webhook_hash, rules), owner)
            <= s.limit_value(),
{
    let r = registered(s, owner, target_contract, label, webhook_hash, rules);
    lemma_register_consistent(s, owner, target_contract, label, webhook_hash, rules);
    owner_query_is_exact(s, owner);
    owner_query_is_exact(r, owner);
}

/// Every entry a registration writes (the alert and, in a consistent
/// registry, the owner's and the target's index) is left with a TTL of at
/// least [`DEFAULT_TTL`] ledgers; so is an alert rewritten by an update.
pub proof fn writes_refresh_ttls(
    s: AlertState,
    owner: Address,
    target_contract: Address,
    label: Seq<u8>,
    webhook_hash: Seq<u8>,
    rules: Seq<Seq<u8>>,
    id: u64,
    cfg: AlertConfigView,
)
    requires
        s.counter() < u64::MAX,
    ensures
        ({
            let r = registered(s, owner, target_contract, label, webhook_hash, rules);
            &&& r.ttl_of(DataKey::Alert(s.counter())) matches Some(t) && t >= DEFAULT_TTL
            &&& s.consistent() ==> (r.ttl_of(DataKey::OwnerIndex(owner)) matches Some(t) && t
                >= DEFAULT_TTL)
            &&& s.consistent() ==> (r.ttl_of(DataKey::ContractIndex(target_contract)) matches Some(
                t,
            ) && t >= DEFAULT_TTL)
        }),
        s.put_alert(id, cfg).ttl_of(DataKey::Alert(id)) matches Some(t) && t >= DEFAULT_TTL,
{
    if s.consistent() {
        lemma_register_consistent(s, owner, target_contract, label, webhook_hash, rules);
    }
}

/// A successful admin transfer gives the new admin the admin rights and
/// takes them from the old one (unless it hands them to itself).
pub proof fn transfer_moves_admin_rights(s: AlertState, admin: Address, new_admin: Address)
    requires
        admin_check(s, admin) is Ok,
    ensures
        admin_check(AlertState { admin: Some(new_admin), ..s }, new_admin) is Ok,
        admin != new_admin ==> admin_check(AlertState { admin: Some(new_admin), ..s }, admin)
            == Err::<(), ContractError>(ContractError::Unauthorized),
{
}

/// The stored configurations of `k`-sized pages `0, 1, …, n - 1` of `ids`,
/// concatenated.
pub open spec fn pages(alerts: Map<u64, AlertConfigView>, ids: Seq<u64>, k: nat, n: nat) -> Seq<
    AlertConfigView,
>
    decreases n,
{
    if n == 0 {
        Seq::empty()
    } else {
        pages(alerts, ids, k, (n - 1) as nat) + configs_of(
            alerts,
            window(ids, ((n - 1) * k) as int, k as int),
        )
    }
}

/// Paging through a list with pages of `k > 0` items at offsets `0, k, 2k,
/// …` yields, page after page, the stored configurations of the list in
/// order: the first `n` pages are the window of `n * k` items, and once
/// `n * k` reaches the list's length they are the whole list and every
/// further page is empty.
pub proof fn paging_yields_the_whole_list(
    alerts: Map<u64, AlertConfigView>,
    ids: Seq<u64>,
    k: nat,
    n: nat,
)
    requires
        k > 0,
    ensures
        pages(alerts, ids, k, n) == configs_of(alerts, window(ids, 0, (n * k) as int)),
        n * k >= ids.len() ==> pages(alerts, ids, k, n) == configs_of(alerts, ids),
        n * k >= ids.len() ==> window(ids, (n * k) as int, k as int) == Seq::<u64>::empty(),
    decreases n,
{
    if n == 0 {
        assert(window(ids, 0, 0) =~= Seq::<u64>::empty());
        assert(configs_of(alerts, Seq::<u64>::empty()) =~= Seq::<AlertConfigView>::empty());
    } else {
        let m = (n - 1) as nat;
        paging_yields_the_whole_list(alerts, ids, k, m);
        assert(n * k == m * k + k) by (nonlinear_arith)
            requires
                n == m + 1,
        ;
        assert(m * k >= 0) by (nonlinear_arith);
        let a = window(ids, 0, (m * k) as int);
        let b = window(ids, (m * k) as int, k as int);
        assert(a + b =~= window(ids, 0, (n * k) as int));
        lemma_configs_concat(alerts, a, b);
    }
    if n * k >= ids.len() {
        assert(window(ids, 0, (n * k) as int) =~= ids);
        assert(window(ids, (n * k) as int, k as int) =~= Seq::<u64>::empty());
    }
}

/// The state every call leaves behind, committed or reverted, stays
/// consistent; the ID counter never decreases, and a committed
/// registration advances it by one.
pub proof fn lemma_apply(s: AlertState, c: AlertCall)
    ensures
        apply(s, c).counter() >= s.counter(),
        c matches AlertCall::Register { owner, target_contract, label, rules, .. }
            ==> register_abort(s, owner, target_contract, label, rules) is None ==> apply(
            s,
            c,
        ).counter() == s.counter() + 1,
        s.consistent() ==> apply(s, c).consistent(),
{
    match c {
        AlertCall::Register { owner, target_contract, label, webhook_hash, rules } => {
            if register_abort(s, owner, target_contract, label, rules) is None && s.consistent() {
                lemma_register_consistent(s, owner, target_contract, label, webhook_hash, rules);
            }
        },
        AlertCall::UpdateAlert { owner, config_id, rules, active } => {
            if owner_check(s, owner, config_id) is Ok && rules_abort(rules) is None
                && s.consistent() {
                lemma_rewrite_consistent(
                    s,
                    config_id,
                    AlertConfigView {
                        rules,
                        active,
                        updated_at: s.timestamp,
                        ..s.alerts[config_id]
                    },
                );
            }
        },
        AlertCall::UpdateWebhook { caller, config_id, webhook_hash } => {
            if owner_check(s, caller, config_id) is Ok && s.consistent() {
                lemma_rewrite_consistent(
                    s,
                    config_id,
                    AlertConfigView {
                        webhook_hash,
                        updated_at: s.timestamp,
                        ..s.alerts[config_id]
                    },
                );
            }
        },
        AlertCall::Remove { caller, config_id } => {
            if owner_check(s, caller, config_id) is Ok && s.consistent() {
                lemma_remove_consistent(s, config_id, caller);
            }
        },
        AlertCall::RemoveByAdmin { admin, config_id } => {
            if admin_check(s, admin) is Ok && s.alerts.contains_key(config_id) && s.consistent() {
                lemma_remove_consistent(s, config_id, admin);
            }
        },
        _ => {
            if s.consistent() {
                lemma_consistent_frame(s, apply(s, c));
            }
        },
    }
}

/// Along any sequence of calls the ID counter never decreases, and a
/// consistent registry stays consistent after every prefix of the calls.
pub proof fn counter_is_monotonic_and_consistency_kept(s: AlertState, calls: Seq<AlertCall>, i: int, j: int)
    requires
        0 <= i <= j <= calls.len(),
    ensures
        apply_all(s, calls.take(i)).counter() <= apply_all(s, calls.take(j)).counter(),
        s.consistent() ==> apply_all(s, calls.take(j)).consistent(),
    decreases j,
{
    if j > 0 {
        let prev = apply_all(s, calls.take(j - 1));
        assert(calls.take(j).drop_last() =~= calls.take(j - 1));
        assert(calls.take(j).last() == calls[j - 1]);
        lemma_apply(prev, calls[j - 1]);
        if i < j {
            counter_is_monotonic_and_consistency_kept(s, calls, i, j - 1);
        }
        counter_is_monotonic_and_consistency_kept(s, calls, j - 1, j - 1);
    } else {
        assert(calls.take(0) =~= Seq::<AlertCall>::empty());
    }
}

/// IDs are never reused: along any sequence of calls, a committed
/// registration at position `j` returns a larger ID than a committed
/// registration at an earlier position `i`, whatever was removed in
/// between; and in a consistent registry the ID a registration returns is
/// not in use when it is handed out.
pub proof fn ids_are_never_reused(s: AlertState, calls: Seq<AlertCall>, i: int, j: int)
    requires
        0 <= i < j < calls.len(),
        calls[i] matches AlertCall::Register { owner, target_contract, label, rules, .. }
            && register_abort(apply_all(s, calls.take(i)), owner, target_contract, label, rules)
            is None,
    ensures
        apply_all(s, calls.take(i)).counter() < apply_all(s, calls.take(j)).counter(),
        s.consistent() ==> !apply_all(s, calls.take(j)).alerts.contains_key(
            apply_all(s, calls.take(j)).counter(),
        ),
{
    let si = apply_all(s, calls.take(i));
    assert(calls.take(i + 1).drop_last() =~= calls.take(i));
    assert(calls.take(i + 1).last() == calls[i]);
    lemma_apply(si, calls[i]);
    counter_is_monotonic_and_consistency_kept(s, calls, i + 1, j);
    if s.consistent() {
        let sj = apply_all(s, calls.take(j));
        assert(sj.consistent());
        if sj.alerts.contains_key(sj.counter()) {
            assert(sj.counter() < sj.counter());
        }
    }
}

/// Every state reached from a fresh registry (no alerts, no indexes, no
/// counter, as `AlertEnv::new` gives) by any sequence of calls is
/// consistent; the first registration on a fresh registry returns ID 0.
pub proof fn reachable_states_are_consistent(s: AlertState, calls: Seq<AlertCall>)
    requires
        s.alerts == Map::<u64, AlertConfigView>::empty(),
        s.owner_index == Map::<Address, Seq<u64>>::empty(),
        s.contract_index == Map::<Address, Seq<u64>>::empty(),
        s.next_id == None::<u64>,
    ensures
        apply_all(s, calls).consistent(),
        s.counter() == 0,
{
    assert forall|o: Address| #[trigger] s.owner_ids(o) == Seq::<u64>::empty() by {}
    assert forall|o: Address| #[trigger] s.contract_ids(o) == Seq::<u64>::empty() by {}
    assert(s.consistent());
    counter_is_monotonic_and_consistency_kept(s, calls, calls.len() as int, calls.len() as int);
    assert(calls.take(calls.len() as int) =~= calls);
}

/// With a watcher registry set, the alert queries answer exactly the
/// callers it lists: a watcher registered there is answered, and once it is
/// removed (as an address never registered) it is refused with
/// `NotAWatcher`; without a watcher registry every caller is answered.
pub proof fn watcher_gate_follows_the_registry(s: AlertState, w: WatcherState, caller: Address)
    ensures
        s.watcher_registry is Some ==> watcher_check(
            s,
            w.with_watcher(caller).watchers.contains(caller),
        ) == Ok::<(), ContractError>(()),
        s.watcher_registry is Some ==> watcher_check(
            s,
            w.with_watcher(caller).without_watcher(caller).watchers.contains(caller),
        ) == Err::<(), ContractError>(ContractError::NotAWatcher),
        s.watcher_registry is Some ==> (watcher_check(s, w.watchers.contains(caller)) is Ok
            <==> w.watchers.contains(caller)),
        s.watcher_registry is None ==> forall|b: bool| #[trigger] watcher_check(s, b) is Ok,
{
    watcher_registration_laws(w, caller, caller);
    watcher_registration_laws(w.with_watcher(caller), caller, caller);
}

} // verus!
