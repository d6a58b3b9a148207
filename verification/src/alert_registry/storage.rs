//! The registry's ledger state and the storage operations the contract is
//! built from.
//!
//! Persistent entries (alerts and the two indexes) carry a remaining TTL in
//! ledgers. A newly created persistent entry starts with the network's
//! minimum persistent TTL; `extend_ttl(threshold, extend_to)` raises a TTL
//! below `threshold` to `extend_to`. Archival of expired entries happens on
//! the host and is not part of this model.
use vstd::prelude::*;

use std::collections::HashMap;

use crate::address::Address;
use crate::lists::{differs_from, without};
use crate::alert_registry::table::{IndexTable, clone_ids};
use crate::alert_registry::types::{
    AlertConfig, AlertConfigView, AlertEvent, ContractError, DataKey, DEFAULT_TTL, EXTENSION_TTL,
};

verus! {

broadcast use vstd::std_specs::hash::group_hash_axioms;

/// The TTL after `extend_ttl(threshold, extend_to)` on an entry whose TTL was
/// `ttl`.
pub open spec fn extend_ttl(ttl: u32, threshold: u32, extend_to: u32) -> u32 {
    if ttl < threshold {
        extend_to
    } else {
        ttl
    }
}

/// The TTL of a persistent entry after it is written and then extended by
/// [`DEFAULT_TTL`], given its TTL before (`None` when it did not exist) and
/// the network's minimum TTL for new entries.
pub open spec fn ttl_after_write(before: Option<u32>, min_ttl: u32) -> u32 {
    extend_ttl(
        match before {
            Some(t) => t,
            None => min_ttl,
        },
        DEFAULT_TTL,
        DEFAULT_TTL,
    )
}

/// The list stored under `k`, or the empty list.
pub open spec fn ids_or_empty(m: Map<Address, Seq<u64>>, k: Address) -> Seq<u64> {
    if m.contains_key(k) {
        m[k]
    } else {
        Seq::empty()
    }
}

/// `ids` with every occurrence of `id` taken out, order kept.
pub open spec fn without_id(ids: Seq<u64>, id: u64) -> Seq<u64> {
    without(ids, id)
}

/// The stored configurations of `ids`, in order, skipping IDs with no
/// stored alert.
pub open spec fn configs_of(alerts: Map<u64, AlertConfigView>, ids: Seq<u64>) -> Seq<
    AlertConfigView,
>
    decreases ids.len(),
{
    if ids.len() == 0 {
        Seq::empty()
    } else {
        let rest = configs_of(alerts, ids.drop_last());
        if alerts.contains_key(ids.last()) {
            rest.push(alerts[ids.last()])
        } else {
            rest
        }
    }
}

/// The window `[min(start, len), min(start + count, len))` of `ids`, for
/// `start, count >= 0`.
pub open spec fn window(ids: Seq<u64>, start: int, count: int) -> Seq<u64> {
    let len = ids.len() as int;
    let s = if start < len {
        start
    } else {
        len
    };
    let e = if start + count < len {
        start + count
    } else {
        len
    };
    ids.subrange(s, e)
}

/// The page of at most `limit` IDs starting at `offset`, clipped to the
/// list; the end is taken without overflow.
pub open spec fn page(ids: Seq<u64>, offset: u32, limit: u32) -> Seq<u64> {
    window(ids, offset as int, limit as int)
}

/// The views of a list of configurations.
pub open spec fn configs_view(v: Seq<AlertConfig>) -> Seq<AlertConfigView> {
    v.map_values(|c: AlertConfig| c@)
}

/// A stored alert and its remaining TTL.
pub struct StoredAlert {
    config: AlertConfig,
    ttl: u32,
}

/// The abstract ledger state of the alert registry.
#[verifier::ext_equal]
pub struct AlertState {
    /// Persistent `Alert(id)` entries.
    pub alerts: Map<u64, AlertConfigView>,
    /// Remaining TTL of each `Alert(id)` entry.
    pub alert_ttl: Map<u64, u32>,
    /// Persistent `OwnerIndex(owner)` entries.
    pub owner_index: Map<Address, Seq<u64>>,
    /// Remaining TTL of each `OwnerIndex(owner)` entry.
    pub owner_index_ttl: Map<Address, u32>,
    /// Persistent `ContractIndex(target)` entries.
    pub contract_index: Map<Address, Seq<u64>>,
    /// Remaining TTL of each `ContractIndex(target)` entry.
    pub contract_index_ttl: Map<Address, u32>,
    /// Instance entry `NEXT_ID`.
    pub next_id: Option<u64>,
    /// Instance entry `ADMIN`.
    pub admin: Option<Address>,
    /// Instance entry `LIMIT`.
    pub limit: Option<u32>,
    /// Instance entry naming the watcher registry that gates the alert
    /// queries, when one is set.
    pub watcher_registry: Option<Address>,
    /// The ledger's close time.
    pub timestamp: u64,
    /// The TTL a newly created persistent entry starts with.
    pub min_persistent_ttl: u32,
    /// Events published so far, oldest first.
    pub events: Seq<AlertEvent>,
}

impl AlertState {
    /// The value of the ID counter (`0` before the first registration).
    pub open spec fn counter(self) -> u64 {
        match self.next_id {
            Some(n) => n,
            None => 0,
        }
    }

    /// The per-owner limit (`0`, meaning none, when unset).
    pub open spec fn limit_value(self) -> u32 {
        match self.limit {
            Some(l) => l,
            None => 0,
        }
    }

    /// The IDs listed under `owner`.
    pub open spec fn owner_ids(self, owner: Address) -> Seq<u64> {
        ids_or_empty(self.owner_index, owner)
    }

    /// The IDs listed under `target`.
    pub open spec fn contract_ids(self, target: Address) -> Seq<u64> {
        ids_or_empty(self.contract_index, target)
    }

    /// The remaining TTL of the persistent entry under `key`, if it exists.
    pub open spec fn ttl_of(self, key: DataKey) -> Option<u32> {
        match key {
            DataKey::Alert(id) => self.alert_ttl.get(id),
            DataKey::OwnerIndex(a) => self.owner_index_ttl.get(a),
            DataKey::ContractIndex(a) => self.contract_index_ttl.get(a),
            DataKey::NextId => None,
        }
    }

    /// The registry's cross-entry invariant: every stored alert has an ID
    /// below the counter and is listed, once, in its owner's and its
    /// target's index, and every listed ID is a stored alert with that owner
    /// (resp. target).
    pub open spec fn consistent(self) -> bool {
        &&& forall|id: u64| #[trigger] self.alerts.contains_key(id) ==> id < self.counter()
        &&& forall|id: u64| #[trigger]
            self.alerts.contains_key(id) ==> self.owner_ids(self.alerts[id].owner).contains(id)
                && self.contract_ids(self.alerts[id].target_contract).contains(id)
        &&& forall|o: Address, id: u64| #[trigger]
            self.owner_ids(o).contains(id) ==> self.alerts.contains_key(id) && self.alerts[id].owner
                == o
        &&& forall|t: Address, id: u64| #[trigger]
            self.contract_ids(t).contains(id) ==> self.alerts.contains_key(id)
                && self.alerts[id].target_contract == t
        &&& forall|o: Address| #[trigger] self.owner_ids(o).no_duplicates()
        &&& forall|t: Address| #[trigger] self.contract_ids(t).no_duplicates()
    }

    /// The state after the ID counter is advanced by one.
    pub open spec fn advance_counter(self) -> AlertState {
        AlertState { next_id: Some((self.counter() + 1) as u64), ..self }
    }

    /// The state after `cfg` is written under `id` and the entry's TTL
    /// extended.
    pub open spec fn put_alert(self, id: u64, cfg: AlertConfigView) -> AlertState {
        AlertState {
            alerts: self.alerts.insert(id, cfg),
            alert_ttl: self.alert_ttl.insert(
                id,
                ttl_after_write(self.alert_ttl.get(id), self.min_persistent_ttl),
            ),
            ..self
        }
    }

    /// The state after the alert entry under `id` is deleted.
    pub open spec fn delete_alert(self, id: u64) -> AlertState {
        AlertState { alerts: self.alerts.remove(id), alert_ttl: self.alert_ttl.remove(id), ..self }
    }

    /// The state after the alert entry's TTL is extended to
    /// [`EXTENSION_TTL`].
    pub open spec fn extend_alert(self, id: u64) -> AlertState {
        AlertState {
            alert_ttl: self.alert_ttl.insert(
                id,
                extend_ttl(self.alert_ttl[id], EXTENSION_TTL, EXTENSION_TTL),
            ),
            ..self
        }
    }

    /// The state after `ids` is written as `owner`'s index and the entry's
    /// TTL extended.
    pub open spec fn put_owner_ids(self, owner: Address, ids: Seq<u64>) -> AlertState {
        AlertState {
            owner_index: self.owner_index.insert(owner, ids),
            owner_index_ttl: self.owner_index_ttl.insert(
                owner,
                ttl_after_write(self.owner_index_ttl.get(owner), self.min_persistent_ttl),
            ),
            ..self
        }
    }

    /// The state after `ids` is written as `target`'s index and the entry's
    /// TTL extended.
    pub open spec fn put_contract_ids(self, target: Address, ids: Seq<u64>) -> AlertState {
        AlertState {
            contract_index: self.contract_index.insert(target, ids),
            contract_index_ttl: self.contract_index_ttl.insert(
                target,
                ttl_after_write(self.contract_index_ttl.get(target), self.min_persistent_ttl),
            ),
            ..self
        }
    }

    /// The state after `id` is appended to `owner`'s index.
    pub open spec fn push_owner(self, owner: Address, id: u64) -> AlertState {
        self.put_owner_ids(owner, self.owner_ids(owner).push(id))
    }

    /// The state after `id` is appended to `target`'s index.
    pub open spec fn push_contract(self, target: Address, id: u64) -> AlertState {
        self.put_contract_ids(target, self.contract_ids(target).push(id))
    }

    /// The state after `id` is taken out of `owner`'s index.
    pub open spec fn drop_from_owner(self, owner: Address, id: u64) -> AlertState {
        self.put_owner_ids(owner, without_id(self.owner_ids(owner), id))
    }

    /// The state after `id` is taken out of `target`'s index.
    pub open spec fn drop_from_contract(self, target: Address, id: u64) -> AlertState {
        self.put_contract_ids(target, without_id(self.contract_ids(target), id))
    }

    /// The state after the TTL of `owner`'s index entry, if it exists, is
    /// extended to [`EXTENSION_TTL`].
    pub open spec fn extend_owner(self, owner: Address) -> AlertState {
        if self.owner_index_ttl.contains_key(owner) {
            AlertState {
                owner_index_ttl: self.owner_index_ttl.insert(
                    owner,
                    extend_ttl(self.owner_index_ttl[owner], EXTENSION_TTL, EXTENSION_TTL),
                ),
                ..self
            }
        } else {
            self
        }
    }

    /// The state after the TTL of `target`'s index entry, if it exists, is
    /// extended to [`EXTENSION_TTL`].
    pub open spec fn extend_contract(self, target: Address) -> AlertState {
        if self.contract_index_ttl.contains_key(target) {
            AlertState {
                contract_index_ttl: self.contract_index_ttl.insert(
                    target,
                    extend_ttl(self.contract_index_ttl[target], EXTENSION_TTL, EXTENSION_TTL),
                ),
                ..self
            }
        } else {
            self
        }
    }

    /// The state after `event` is published.
    pub open spec fn emit(self, event: AlertEvent) -> AlertState {
        AlertState { events: self.events.push(event), ..self }
    }
}

/// The ledger state of the alert registry: its persistent and instance
/// entries, the ledger time and the events published.
pub struct AlertEnv {
    alerts: HashMap<u64, StoredAlert>,
    owner_index: IndexTable,
    contract_index: IndexTable,
    next_id: Option<u64>,
    admin: Option<Address>,
    limit: Option<u32>,
    watcher_registry: Option<Address>,
    timestamp: u64,
    min_persistent_ttl: u32,
    events: Vec<AlertEvent>,
}

impl View for AlertEnv {
    type V = AlertState;

    closed spec fn view(&self) -> AlertState {
        AlertState {
            alerts: self.alerts@.map_values(|s: StoredAlert| s.config@),
            alert_ttl: self.alerts@.map_values(|s: StoredAlert| s.ttl),
            owner_index: self.owner_index.lists(),
            owner_index_ttl: self.owner_index.ttls(),
            contract_index: self.contract_index.lists(),
            contract_index_ttl: self.contract_index.ttls(),
            next_id: self.next_id,
            admin: self.admin,
            limit: self.limit,
            watcher_registry: self.watcher_registry,
            timestamp: self.timestamp,
            min_persistent_ttl: self.min_persistent_ttl,
            events: self.events@,
        }
    }
}

impl AlertEnv {
    /// A fresh deployment: no entries, no events, at ledger time `timestamp`.
    pub fn new(timestamp: u64, min_persistent_ttl: u32) -> (env: AlertEnv)
        ensures
            env@.alerts == Map::<u64, AlertConfigView>::empty(),
            env@.alert_ttl == Map::<u64, u32>::empty(),
            env@.owner_index == Map::<Address, Seq<u64>>::empty(),
            env@.owner_index_ttl == Map::<Address, u32>::empty(),
            env@.contract_index == Map::<Address, Seq<u64>>::empty(),
            env@.contract_index_ttl == Map::<Address, u32>::empty(),
            env@.next_id == None::<u64>,
            env@.admin == None::<Address>,
            env@.limit == None::<u32>,
            env@.watcher_registry == None::<Address>,
            env@.timestamp == timestamp,
            env@.min_persistent_ttl == min_persistent_ttl,
            env@.events == Seq::<AlertEvent>::empty(),
            env@.consistent(),
    {
        let env = AlertEnv {
            alerts: HashMap::new(),
            owner_index: IndexTable::new(),
            contract_index: IndexTable::new(),
            next_id: None,
            admin: None,
            limit: None,
            watcher_registry: None,
            timestamp,
            min_persistent_ttl,
            events: Vec::new(),
        };
        assert(env@.alerts =~= Map::<u64, AlertConfigView>::empty());
        assert(env@.alert_ttl =~= Map::<u64, u32>::empty());
        env
    }

    /// Moves the ledger to close time `timestamp`.
    pub fn set_timestamp(&mut self, timestamp: u64)
        ensures
            final(self)@ == (AlertState { timestamp, ..old(self)@ }),
    {
        self.timestamp = timestamp;
    }

    /// The events published so far, oldest first.
    pub fn events(&self) -> (r: Vec<AlertEvent>)
        ensures
            r@ == self@.events,
    {
        self.events.clone()
    }

    /// Puts an existing `Alert(id)` entry with remaining TTL `ttl` into the
    /// state, as read from the ledger.
    pub fn load_alert(&mut self, id: u64, config: AlertConfig, ttl: u32)
        ensures
            final(self)@ == (AlertState {
                alerts: old(self)@.alerts.insert(id, config@),
                alert_ttl: old(self)@.alert_ttl.insert(id, ttl),
                ..old(self)@
            }),
    {
        let ghost cv = config@;
        self.alerts.insert(id, StoredAlert { config, ttl });
        proof {
            assert(self@.alerts =~= old(self)@.alerts.insert(id, cv));
            assert(self@.alert_ttl =~= old(self)@.alert_ttl.insert(id, ttl));
        }
    }

    /// Puts an existing `OwnerIndex(owner)` entry with remaining TTL `ttl`
    /// into the state, as read from the ledger.
    pub fn load_owner_index(&mut self, owner: Address, ids: Vec<u64>, ttl: u32)
        requires
            ids@.len() <= u32::MAX,
        ensures
            final(self)@ == (AlertState {
                owner_index: old(self)@.owner_index.insert(owner, ids@),
                owner_index_ttl: old(self)@.owner_index_ttl.insert(owner, ttl),
                ..old(self)@
            }),
    {
        self.owner_index.set(owner, ids, ttl);
    }

    /// Puts an existing `ContractIndex(target)` entry with remaining TTL
    /// `ttl` into the state, as read from the ledger.
    pub fn load_contract_index(&mut self, target: Address, ids: Vec<u64>, ttl: u32)
        requires
            ids@.len() <= u32::MAX,
        ensures
            final(self)@ == (AlertState {
                contract_index: old(self)@.contract_index.insert(target, ids@),
                contract_index_ttl: old(self)@.contract_index_ttl.insert(target, ttl),
                ..old(self)@
            }),
    {
        self.contract_index.set(target, ids, ttl);
    }

    /// Puts the instance entries, as read from the ledger, into the state.
    pub fn load_instance(
        &mut self,
        next_id: Option<u64>,
        admin: Option<Address>,
        limit: Option<u32>,
        watcher_registry: Option<Address>,
    )
        ensures
            final(self)@ == (AlertState { next_id, admin, limit, watcher_registry, ..old(self)@ }),
    {
        self.next_id = next_id;
        self.admin = admin;
        self.limit = limit;
        self.watcher_registry = watcher_registry;
    }

    /// The stored `NEXT_ID` instance entry.
    pub fn next_id_entry(&self) -> (r: Option<u64>)
        ensures
            r == self@.next_id,
    {
        self.next_id
    }

    /// The stored `LIMIT` instance entry.
    pub fn limit_entry(&self) -> (r: Option<u32>)
        ensures
            r == self@.limit,
    {
        self.limit
    }

    /// The remaining TTL of the `Alert(id)` entry, if it exists.
    pub fn alert_ttl(&self, id: u64) -> (r: Option<u32>)
        ensures
            r == self@.alert_ttl.get(id),
    {
        match self.alerts.get(&id) {
            Some(stored) => Some(stored.ttl),
            None => None,
        }
    }

    /// The `OwnerIndex(owner)` entry and its remaining TTL, if it exists.
    pub fn owner_index_entry(&self, owner: &Address) -> (r: Option<(Vec<u64>, u32)>)
        ensures
            match r {
                Some((ids, ttl)) => self@.owner_index.get(*owner) == Some(ids@)
                    && self@.owner_index_ttl.get(*owner) == Some(ttl),
                None => !self@.owner_index.contains_key(*owner),
            },
    {
        proof {
            self.owner_index.lemma_same_keys();
        }
        self.owner_index.get(owner)
    }

    /// The `ContractIndex(target)` entry and its remaining TTL, if it
    /// exists.
    pub fn contract_index_entry(&self, target: &Address) -> (r: Option<(Vec<u64>, u32)>)
        ensures
            match r {
                Some((ids, ttl)) => self@.contract_index.get(*target) == Some(ids@)
                    && self@.contract_index_ttl.get(*target) == Some(ttl),
                None => !self@.contract_index.contains_key(*target),
            },
    {
        proof {
            self.contract_index.lemma_same_keys();
        }
        self.contract_index.get(target)
    }
}


// ── Ledger time and events ───────────────────────────────────────────────────

/// The close time of the current ledger.
pub fn ledger_timestamp(env: &AlertEnv) -> (t: u64)
    ensures
        t == env@.timestamp,
{
    env.timestamp
}

/// Publishes `event`.
pub fn publish(env: &mut AlertEnv, event: AlertEvent)
    ensures
        final(env)@ == old(env)@.emit(event),
{
    env.events.push(event);
}

// ── ID counter ───────────────────────────────────────────────────────────────

/// Reads the ID counter and advances it by one; returns the value before the
/// increment, so the first ID is `0`.
pub fn next_id(env: &mut AlertEnv) -> (id: u64)
    requires
        old(env)@.counter() < u64::MAX,
    ensures
        id == old(env)@.counter(),
        final(env)@ == old(env)@.advance_counter(),
{
    let id: u64 = match env.next_id {
        Some(n) => n,
        None => 0,
    };
    env.next_id = Some(id + 1);
    id
}

/// The current value of the ID counter, without advancing it.
pub fn peek_next_id(env: &AlertEnv) -> (id: u64)
    ensures
        id == env@.counter(),
{
    match env.next_id {
        Some(n) => n,
        None => 0,
    }
}

// ── Alert entries ────────────────────────────────────────────────────────────

/// The alert stored under `id`, if any.
pub fn get_alert(env: &AlertEnv, id: u64) -> (r: Option<AlertConfig>)
    ensures
        match r {
            Some(c) => env@.alerts.contains_key(id) && c@ == env@.alerts[id],
            None => !env@.alerts.contains_key(id),
        },
{
    match env.alerts.get(&id) {
        Some(stored) => Some(stored.config.clone()),
        None => None,
    }
}

/// Stores `config` under `id` and extends the entry's TTL to
/// [`DEFAULT_TTL`].
pub fn set_alert(env: &mut AlertEnv, id: u64, config: &AlertConfig)
    ensures
        final(env)@ == old(env)@.put_alert(id, config@),
{
    let before: u32 = match env.alerts.get(&id) {
        Some(stored) => stored.ttl,
        None => env.min_persistent_ttl,
    };
    let ttl: u32 = if before < DEFAULT_TTL {
        DEFAULT_TTL
    } else {
        before
    };
    env.alerts.insert(id, StoredAlert { config: config.clone(), ttl });
    proof {
        assert(env@.alerts =~= old(env)@.alerts.insert(id, config@));
        assert(env@.alert_ttl =~= old(env)@.alert_ttl.insert(
            id,
            ttl_after_write(old(env)@.alert_ttl.get(id), old(env)@.min_persistent_ttl),
        ));
    }
}

/// Deletes the alert entry under `id`, if any.
pub fn remove_alert(env: &mut AlertEnv, id: u64)
    ensures
        final(env)@ == old(env)@.delete_alert(id),
{
    env.alerts.remove(&id);
    proof {
        assert(env@.alerts =~= old(env)@.alerts.remove(id));
        assert(env@.alert_ttl =~= old(env)@.alert_ttl.remove(id));
    }
}

/// Whether an alert is stored under `id`.
pub fn has_alert(env: &AlertEnv, id: u64) -> (b: bool)
    ensures
        b == env@.alerts.contains_key(id),
{
    env.alerts.contains_key(&id)
}

/// Extends the TTL of the alert entry under `id` to [`EXTENSION_TTL`]
/// without touching its data. The host refuses to extend a missing entry.
pub fn extend_alert_ttl(env: &mut AlertEnv, id: u64)
    requires
        old(env)@.alerts.contains_key(id),
    ensures
        final(env)@ == old(env)@.extend_alert(id),
{
    let stored = env.alerts.remove(&id).unwrap();
    let ttl: u32 = if stored.ttl < EXTENSION_TTL {
        EXTENSION_TTL
    } else {
        stored.ttl
    };
    env.alerts.insert(id, StoredAlert { config: stored.config, ttl });
    proof {
        assert(env@.alerts =~= old(env)@.alerts);
        assert(env@.alert_ttl =~= old(env)@.alert_ttl.insert(
            id,
            extend_ttl(old(env)@.alert_ttl[id], EXTENSION_TTL, EXTENSION_TTL),
        ));
    }
}


// ── Index entries ────────────────────────────────────────────────────────────

fn index_ids(table: &IndexTable, key: &Address) -> (ids: Vec<u64>)
    ensures
        ids@ == ids_or_empty(table.lists(), *key),
        ids@.len() <= u32::MAX,
{
    match table.get(key) {
        Some((ids, _)) => ids,
        None => Vec::new(),
    }
}

fn written_ttl(table: &IndexTable, key: &Address, min_ttl: u32) -> (ttl: u32)
    ensures
        ttl == ttl_after_write(table.ttls().get(*key), min_ttl),
{
    proof {
        table.lemma_same_keys();
    }
    let before: u32 = match table.get(key) {
        Some((_, t)) => t,
        None => min_ttl,
    };
    if before < DEFAULT_TTL {
        DEFAULT_TTL
    } else {
        before
    }
}

pub(crate) fn contains_id(ids: &Vec<u64>, id: u64) -> (b: bool)
    ensures
        b == ids@.contains(id),
{
    let mut i: usize = 0;
    while i < ids.len()
        invariant
            i <= ids@.len(),
            forall|j: int| 0 <= j < i ==> ids@[j] != id,
        decreases ids@.len() - i,
    {
        if ids[i] == id {
            assert(ids@[i as int] == id);
            return true;
        }
        i = i + 1;
    }
    false
}

fn push_index(table: &mut IndexTable, key: &Address, id: u64, min_ttl: u32)
    requires
        !ids_or_empty(old(table).lists(), *key).contains(id),
        ids_or_empty(old(table).lists(), *key).len() < u32::MAX,
    ensures
        final(table).lists() == old(table).lists().insert(
            *key,
            ids_or_empty(old(table).lists(), *key).push(id),
        ),
        final(table).ttls() == old(table).ttls().insert(
            *key,
            ttl_after_write(old(table).ttls().get(*key), min_ttl),
        ),
{
    let mut ids = index_ids(table, key);
    ids.push(id);
    let ttl = written_ttl(table, key, min_ttl);
    table.set(*key, ids, ttl);
}

fn remove_from_index(table: &mut IndexTable, key: &Address, id: u64, min_ttl: u32)
    ensures
        final(table).lists() == old(table).lists().insert(
            *key,
            without_id(ids_or_empty(old(table).lists(), *key), id),
        ),
        final(table).ttls() == old(table).ttls().insert(
            *key,
            ttl_after_write(old(table).ttls().get(*key), min_ttl),
        ),
{
    broadcast use vstd::seq_lib::group_seq_properties;

    let ids = index_ids(table, key);
    let mut updated: Vec<u64> = Vec::new();
    let mut i: usize = 0;
    while i < ids.len()
        invariant
            i <= ids@.len(),
            updated@ == without_id(ids@.subrange(0, i as int), id),
        decreases ids@.len() - i,
    {
        let v = ids[i];
        assert(ids@.subrange(0, i + 1) =~= ids@.subrange(0, i as int).push(v));
        proof {
            ids@.subrange(0, i as int).lemma_filter_push(v, differs_from(id));
        }
        if v != id {
            updated.push(v);
        }
        i = i + 1;
    }
    assert(ids@.subrange(0, ids@.len() as int) =~= ids@);
    proof {
        ids@.lemma_filter_len(differs_from(id));
    }
    let ttl = written_ttl(table, key, min_ttl);
    table.set(*key, updated, ttl);
}

fn extend_index_ttl(table: &mut IndexTable, key: &Address)
    ensures
        final(table).lists() == old(table).lists(),
        final(table).ttls() == if old(table).ttls().contains_key(*key) {
            old(table).ttls().insert(
                *key,
                extend_ttl(old(table).ttls()[*key], EXTENSION_TTL, EXTENSION_TTL),
            )
        } else {
            old(table).ttls()
        },
{
    proof {
        table.lemma_same_keys();
    }
    match table.get(key) {
        Some((ids, ttl)) => {
            let new_ttl: u32 = if ttl < EXTENSION_TTL {
                EXTENSION_TTL
            } else {
                ttl
            };
            table.set(*key, ids, new_ttl);
            assert(table.lists() =~= old(table).lists());
        },
        None => {},
    }
}

/// The IDs of the alerts owned by `owner`, or an empty list.
pub fn owner_index(env: &AlertEnv, owner: &Address) -> (ids: Vec<u64>)
    ensures
        ids@ == env@.owner_ids(*owner),
        ids@.len() <= u32::MAX,
{
    index_ids(&env.owner_index, owner)
}

/// Appends `id` to `owner`'s index and extends the entry's TTL. The index
/// never lists an ID twice: pushing an ID already listed aborts the
/// invocation, so it is not admitted here.
pub fn push_owner_index(env: &mut AlertEnv, owner: &Address, id: u64) -> (r: Result<
    (),
    ContractError,
>)
    requires
        !old(env)@.owner_ids(*owner).contains(id),
        old(env)@.owner_ids(*owner).len() < u32::MAX,
    ensures
        r == Ok::<(), ContractError>(()),
        final(env)@ == old(env)@.push_owner(*owner, id),
{
    let min_ttl = env.min_persistent_ttl;
    push_index(&mut env.owner_index, owner, id, min_ttl);
    Ok(())
}

/// Takes every occurrence of `id` out of `owner`'s index, writes the entry
/// back (creating it empty if it was missing) and extends its TTL.
pub fn remove_from_owner_index(env: &mut AlertEnv, owner: &Address, id: u64)
    ensures
        final(env)@ == old(env)@.drop_from_owner(*owner, id),
{
    let min_ttl = env.min_persistent_ttl;
    remove_from_index(&mut env.owner_index, owner, id, min_ttl);
}

/// Extends the TTL of `owner`'s index entry to [`EXTENSION_TTL`] if the
/// entry exists; its data is untouched.
pub fn extend_owner_index_ttl(env: &mut AlertEnv, owner: &Address)
    ensures
        final(env)@ == old(env)@.extend_owner(*owner),
{
    extend_index_ttl(&mut env.owner_index, owner);
    proof {
        if !old(env)@.owner_index_ttl.contains_key(*owner) {
            assert(env@ =~= old(env)@);
        }
    }
}

/// The IDs of the alerts watching `target`, or an empty list.
pub fn contract_index(env: &AlertEnv, target: &Address) -> (ids: Vec<u64>)
    ensures
        ids@ == env@.contract_ids(*target),
        ids@.len() <= u32::MAX,
{
    index_ids(&env.contract_index, target)
}

/// Appends `id` to `target`'s index and extends the entry's TTL. The index
/// never lists an ID twice: pushing an ID already listed aborts the
/// invocation, so it is not admitted here.
pub fn push_contract_index(env: &mut AlertEnv, target: &Address, id: u64) -> (r: Result<
    (),
    ContractError,
>)
    requires
        !old(env)@.contract_ids(*target).contains(id),
        old(env)@.contract_ids(*target).len() < u32::MAX,
    ensures
        r == Ok::<(), ContractError>(()),
        final(env)@ == old(env)@.push_contract(*target, id),
{
    let min_ttl = env.min_persistent_ttl;
    push_index(&mut env.contract_index, target, id, min_ttl);
    Ok(())
}

/// Takes every occurrence of `id` out of `target`'s index, writes the entry
/// back (creating it empty if it was missing) and extends its TTL.
pub fn remove_from_contract_index(env: &mut AlertEnv, target: &Address, id: u64)
    ensures
        final(env)@ == old(env)@.drop_from_contract(*target, id),
{
    let min_ttl = env.min_persistent_ttl;
    remove_from_index(&mut env.contract_index, target, id, min_ttl);
}

/// Extends the TTL of `target`'s index entry to [`EXTENSION_TTL`] if the
/// entry exists; its data is untouched.
pub fn extend_contract_index_ttl(env: &mut AlertEnv, target: &Address)
    ensures
        final(env)@ == old(env)@.extend_contract(*target),
{
    extend_index_ttl(&mut env.contract_index, target);
    proof {
        if !old(env)@.contract_index_ttl.contains_key(*target) {
            assert(env@ =~= old(env)@);
        }
    }
}

// ── Batch reads ──────────────────────────────────────────────────────────────

/// The stored configurations of `ids[start..end]`, in order; IDs without a
/// stored alert are skipped.
fn configs_in_range(env: &AlertEnv, ids: &Vec<u64>, start: usize, end: usize) -> (out: Vec<
    AlertConfig,
>)
    requires
        start <= end <= ids@.len(),
    ensures
        configs_view(out@) == configs_of(env@.alerts, ids@.subrange(start as int, end as int)),
{
    let mut out: Vec<AlertConfig> = Vec::new();
    let mut i: usize = start;
    assert(ids@.subrange(start as int, start as int) =~= Seq::<u64>::empty());
    assert(configs_view(out@) =~= Seq::<AlertConfigView>::empty());
    while i < end
        invariant
            start <= i <= end <= ids@.len(),
            configs_view(out@) == configs_of(env@.alerts, ids@.subrange(start as int, i as int)),
        decreases end - i,
    {
        let id = ids[i];
        let ghost prefix = ids@.subrange(start as int, i as int);
        let ghost next = ids@.subrange(start as int, i + 1);
        assert(next.drop_last() =~= prefix);
        assert(next.last() == id);
        match get_alert(env, id) {
            Some(cfg) => {
                let ghost before = out@;
                out.push(cfg);
                assert(configs_view(out@) =~= configs_view(before).push(cfg@));
            },
            None => {},
        }
        i = i + 1;
    }
    out
}

/// The stored configurations of `ids`, in order. IDs with no stored alert
/// are skipped, so the result may be shorter than `ids`.
pub fn configs_for_ids(env: &AlertEnv, ids: &Vec<u64>) -> (out: Vec<AlertConfig>)
    ensures
        configs_view(out@) == configs_of(env@.alerts, ids@),
{
    let out = configs_in_range(env, ids, 0, ids.len());
    assert(ids@.subrange(0, ids@.len() as int) =~= ids@);
    out
}

/// The stored configurations of the window `[offset, offset + limit)` of
/// `ids`, clipped to its length; missing alerts are skipped after the window
/// is cut. Every offset and limit is answered: the window's end is computed
/// without overflow.
pub fn configs_paginated(env: &AlertEnv, ids: &Vec<u64>, offset: u32, limit: u32) -> (out: Vec<
    AlertConfig,
>)
    ensures
        configs_view(out@) == configs_of(env@.alerts, page(ids@, offset, limit)),
{
    let len = ids.len() as u64;
    let end_wanted: u64 = offset as u64 + limit as u64;
    let start: u64 = if (offset as u64) < len {
        offset as u64
    } else {
        len
    };
    let end: u64 = if end_wanted < len {
        end_wanted
    } else {
        len
    };
    configs_in_range(env, ids, start as usize, end as usize)
}

// ── Admin and limit ──────────────────────────────────────────────────────────

/// The stored admin, if any.
pub fn get_admin(env: &AlertEnv) -> (r: Option<Address>)
    ensures
        r == env@.admin,
{
    env.admin
}

/// Stores `admin` as the admin.
pub fn set_admin(env: &mut AlertEnv, admin: &Address)
    ensures
        final(env)@ == (AlertState { admin: Some(*admin), ..old(env)@ }),
{
    env.admin = Some(*admin);
}

/// Whether an admin is stored.
pub fn has_admin(env: &AlertEnv) -> (b: bool)
    ensures
        b == env@.admin.is_some(),
{
    env.admin.is_some()
}

/// The per-owner limit, `0` when unset.
pub fn get_limit(env: &AlertEnv) -> (l: u32)
    ensures
        l == env@.limit_value(),
{
    match env.limit {
        Some(l) => l,
        None => 0,
    }
}

/// Stores `limit` as the per-owner limit.
pub fn set_limit(env: &mut AlertEnv, limit: u32)
    ensures
        final(env)@ == (AlertState { limit: Some(limit), ..old(env)@ }),
{
    env.limit = Some(limit);
}


/// The watcher registry that gates the alert queries, if one is set.
pub fn get_watcher_registry(env: &AlertEnv) -> (r: Option<Address>)
    ensures
        r == env@.watcher_registry,
{
    env.watcher_registry
}

/// Stores `registry` as the watcher registry gating the alert queries.
pub fn set_watcher_registry(env: &mut AlertEnv, registry: &Address)
    ensures
        final(env)@ == (AlertState { watcher_registry: Some(*registry), ..old(env)@ }),
{
    env.watcher_registry = Some(*registry);
}

} // verus!
