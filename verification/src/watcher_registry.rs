//! The watcher registry: a set of admins (any one of whom may act alone)
//! and the set of authorized watcher nodes.
//!
//! The caller's signature (`require_auth`) is checked by the host before an
//! entry point runs.
use vstd::prelude::*;

use crate::address::Address;
use crate::lists::{lemma_push_fresh, lemma_without, without};

verus! {

/// Errors the watcher registry reports to its callers.
#[derive(Clone, Copy, Debug, PartialEq, Eq, Structural)]
pub enum ContractError {
    /// The registry already has admins.
    AlreadyInitialized,
    /// The caller is not an admin.
    Unauthorized,
    /// The registry has no admins yet.
    NotInitialized,
    /// Removing the admin would leave the registry without one.
    LastAdmin,
}

/// Keys of the contract's instance entries.
#[derive(Clone, Copy, Debug, PartialEq, Eq, Structural)]
pub enum DataKey {
    /// The list of admins.
    Admins,
    /// The list of authorized watchers.
    Watchers,
}

/// Events the registry publishes.
#[derive(Clone, Copy, Debug, PartialEq, Eq, Structural)]
pub enum WatcherEvent {
    /// Topics `("admin", "init")`, data `admin`.
    AdminInitialized { admin: Address },
    /// Topics `("admin", "add")`, data `(caller, new_admin)`.
    AdminAdded { caller: Address, new_admin: Address },
    /// Topics `("admin", "remove")`, data `(caller, target_admin)`.
    AdminRemoved { caller: Address, target_admin: Address },
    /// Topics `("admin", "transfer")`, data `(admin, new_admin)`.
    AdminTransferred { admin: Address, new_admin: Address },
    /// Topics `("watcher", "register")`, data `watcher`.
    WatcherRegistered { watcher: Address },
    /// Topics `("watcher", "remove")`, data `watcher`.
    WatcherRemoved { watcher: Address },
}

/// The abstract ledger state of the watcher registry.
#[verifier::ext_equal]
pub struct WatcherState {
    /// Instance entry `Admins` (`None` before initialization).
    pub admins: Option<Seq<Address>>,
    /// Instance entry `Watchers` (empty when never written).
    pub watchers: Seq<Address>,
    /// Events published so far, oldest first.
    pub events: Seq<WatcherEvent>,
}

impl WatcherState {
    /// The admins, or the empty list before initialization.
    pub open spec fn admin_list(self) -> Seq<Address> {
        match self.admins {
            Some(a) => a,
            None => Seq::empty(),
        }
    }

    /// The outcome of checking that `caller` is an admin.
    pub open spec fn admin_check(self, caller: Address) -> Result<(), ContractError> {
        match self.admins {
            None => Err(ContractError::NotInitialized),
            Some(a) => if a.contains(caller) {
                Ok(())
            } else {
                Err(ContractError::Unauthorized)
            },
        }
    }

    /// The state after `event` is published.
    pub open spec fn emit(self, event: WatcherEvent) -> WatcherState {
        WatcherState { events: self.events.push(event), ..self }
    }

    /// The state after `caller` adds `new_admin`: unchanged when it is
    /// already an admin.
    pub open spec fn with_admin(self, caller: Address, new_admin: Address) -> WatcherState {
        if self.admin_list().contains(new_admin) {
            self
        } else {
            WatcherState { admins: Some(self.admin_list().push(new_admin)), ..self }.emit(
                WatcherEvent::AdminAdded { caller, new_admin },
            )
        }
    }

    /// The state after `caller` takes `target_admin` out of the admins.
    pub open spec fn without_admin(self, caller: Address, target_admin: Address) -> WatcherState {
        WatcherState { admins: Some(without(self.admin_list(), target_admin)), ..self }.emit(
            WatcherEvent::AdminRemoved { caller, target_admin },
        )
    }

    /// The state after `admin` hands the whole admin set to `new_admin`.
    pub open spec fn transferred(self, admin: Address, new_admin: Address) -> WatcherState {
        WatcherState { admins: Some(seq![new_admin]), ..self }.emit(
            WatcherEvent::AdminTransferred { admin, new_admin },
        )
    }

    /// The state after `watcher` is registered: unchanged when it already
    /// is.
    pub open spec fn with_watcher(self, watcher: Address) -> WatcherState {
        if self.watchers.contains(watcher) {
            self
        } else {
            WatcherState { watchers: self.watchers.push(watcher), ..self }.emit(
                WatcherEvent::WatcherRegistered { watcher },
            )
        }
    }

    /// The state after `watcher` is removed: unchanged, and nothing
    /// published, when it is not registered.
    pub open spec fn without_watcher(self, watcher: Address) -> WatcherState {
        if self.watchers.contains(watcher) {
            WatcherState { watchers: without(self.watchers, watcher), ..self }.emit(
                WatcherEvent::WatcherRemoved { watcher },
            )
        } else {
            self
        }
    }

    /// The registry's invariant: once initialized there is at least one
    /// admin; no admin and no watcher is listed twice.
    pub open spec fn well_formed(self) -> bool {
        &&& (self.admins matches Some(a) ==> a.len() >= 1 && a.no_duplicates())
        &&& self.watchers.no_duplicates()
    }
}

/// The ledger state of the watcher registry: its two instance entries and
/// the events published.
pub struct WatcherEnv {
    admins: Option<Vec<Address>>,
    watchers: Vec<Address>,
    events: Vec<WatcherEvent>,
}

impl View for WatcherEnv {
    type V = WatcherState;

    closed spec fn view(&self) -> WatcherState {
        WatcherState {
            admins: match self.admins {
                Some(a) => Some(a@),
                None => None,
            },
            watchers: self.watchers@,
            events: self.events@,
        }
    }
}

/// Whether `a` is in `list`.
fn contains_address(list: &Vec<Address>, a: &Address) -> (b: bool)
    ensures
        b == list@.contains(*a),
{
    let mut i: usize = 0;
    while i < list.len()
        invariant
            i <= list@.len(),
            forall|j: int| 0 <= j < i ==> list@[j] != *a,
        decreases list@.len() - i,
    {
        if list[i] == *a {
            assert(list@[i as int] == *a);
            return true;
        }
        i = i + 1;
    }
    false
}

/// `list` with every occurrence of `a` taken out, order kept.
fn without_address(list: &Vec<Address>, a: &Address) -> (out: Vec<Address>)
    ensures
        out@ == without(list@, *a),
{
    let mut out: Vec<Address> = Vec::new();
    let mut i: usize = 0;
    while i < list.len()
        invariant
            i <= list@.len(),
            out@ == without(list@.subrange(0, i as int), *a),
        decreases list@.len() - i,
    {
        let x = list[i];
        assert(list@.subrange(0, i + 1) =~= list@.subrange(0, i as int).push(x));
        proof {
            list@.subrange(0, i as int).lemma_filter_push(x, crate::lists::differs_from(*a));
        }
        if x != *a {
            out.push(x);
        }
        i = i + 1;
    }
    assert(list@.subrange(0, list@.len() as int) =~= list@);
    out
}

/// Whether `list` lists no address twice.
fn no_duplicate_addresses(list: &Vec<Address>) -> (b: bool)
    ensures
        b == list@.no_duplicates(),
{
    let mut i: usize = 0;
    while i < list.len()
        invariant
            i <= list@.len(),
            forall|a: int, b: int| 0 <= a < b < i ==> list@[a] != list@[b],
        decreases list@.len() - i,
    {
        let mut j: usize = 0;
        while j < i
            invariant
                j <= i < list@.len(),
                forall|a: int, b: int| 0 <= a < b < i ==> list@[a] != list@[b],
                forall|a: int| 0 <= a < j ==> list@[a] != list@[i as int],
            decreases i - j,
        {
            if list[j] == list[i] {
                return false;
            }
            j = j + 1;
        }
        i = i + 1;
    }
    true
}

impl WatcherEnv {
    #[verifier::type_invariant]
    spec fn inv(self) -> bool {
        self@.well_formed()
    }

    /// The state of the registry is always well formed.
    pub fn well_formed_state(&self)
        ensures
            self@.well_formed(),
    {
        proof {
            use_type_invariant(self);
        }
    }

    /// A fresh deployment: no admins, no watchers, no events.
    pub fn new() -> (env: WatcherEnv)
        ensures
            env@ == (WatcherState {
                admins: None,
                watchers: Seq::empty(),
                events: Seq::empty(),
            }),
    {
        let env = WatcherEnv { admins: None, watchers: Vec::new(), events: Vec::new() };
        assert(env@ =~= (WatcherState {
            admins: None,
            watchers: Seq::empty(),
            events: Seq::empty(),
        }));
        env
    }

    /// The registry state held in the given instance entries, when they
    /// are well formed.
    pub fn from_entries(admins: Option<Vec<Address>>, watchers: Vec<Address>) -> (r: Option<
        WatcherEnv,
    >)
        ensures
            match r {
                Some(env) => {
                    &&& env@.admins == match admins {
                        Some(a) => Some(a@),
                        None => None::<Seq<Address>>,
                    }
                    &&& env@.watchers == watchers@
                    &&& env@.events == Seq::<WatcherEvent>::empty()
                },
                None => !(WatcherState {
                    admins: match admins {
                        Some(a) => Some(a@),
                        None => None::<Seq<Address>>,
                    },
                    watchers: watchers@,
                    events: Seq::empty(),
                }).well_formed(),
            },
    {
        let admins_ok = match &admins {
            Some(a) => a.len() >= 1 && no_duplicate_addresses(a),
            None => true,
        };
        if !admins_ok || !no_duplicate_addresses(&watchers) {
            return None;
        }
        Some(WatcherEnv { admins, watchers, events: Vec::new() })
    }

    /// The stored `Admins` entry.
    pub fn admins_entry(&self) -> (r: Option<Vec<Address>>)
        ensures
            match r {
                Some(a) => self@.admins == Some(a@),
                None => self@.admins is None,
            },
    {
        match &self.admins {
            Some(a) => Some(a.clone()),
            None => None,
        }
    }

    /// The events published so far, oldest first.
    pub fn events(&self) -> (r: Vec<WatcherEvent>)
        ensures
            r@ == self@.events,
    {
        self.events.clone()
    }

    fn emit(&mut self, event: WatcherEvent)
        ensures
            final(self)@ == old(self)@.emit(event),
    {
        proof {
            use_type_invariant(&*self);
        }
        let mut events: Vec<WatcherEvent> = Vec::new();
        std::mem::swap(&mut events, &mut self.events);
        events.push(event);
        self.events = events;
    }

    fn set_admins(&mut self, admins: Vec<Address>)
        requires
            admins@.len() >= 1,
            admins@.no_duplicates(),
        ensures
            final(self)@ == (WatcherState { admins: Some(admins@), ..old(self)@ }),
    {
        proof {
            use_type_invariant(&*self);
        }
        self.admins = Some(admins);
    }

    fn set_watchers(&mut self, watchers: Vec<Address>)
        requires
            watchers@.no_duplicates(),
        ensures
            final(self)@ == (WatcherState { watchers: watchers@, ..old(self)@ }),
    {
        proof {
            use_type_invariant(&*self);
        }
        self.watchers = watchers;
    }
}

/// The registry contract.
pub struct WatcherRegistry;

impl WatcherRegistry {
    /// Makes `admin` the sole admin and publishes `("admin", "init")`; fails
    /// with `AlreadyInitialized`, changing nothing, once admins exist.
    pub fn initialize(env: &mut WatcherEnv, admin: Address) -> (r: Result<(), ContractError>)
        ensures
            old(env)@.admins is Some ==> r == Err::<(), ContractError>(
                ContractError::AlreadyInitialized,
            ) && final(env)@ == old(env)@,
            old(env)@.admins is None ==> r == Ok::<(), ContractError>(()) && final(env)@ == (
            WatcherState { admins: Some(seq![admin]), ..old(env)@ }).emit(
                WatcherEvent::AdminInitialized { admin },
            ),
    {
        if env.admins.is_some() {
            return Err(ContractError::AlreadyInitialized);
        }
        let admins: Vec<Address> = vec![admin];
        assert(admins@ =~= seq![admin]);
        env.set_admins(admins);
        env.emit(WatcherEvent::AdminInitialized { admin });
        Ok(())
    }

    /// Adds `new_admin` to the admins on behalf of the admin `caller` and
    /// publishes `("admin", "add")`. Adding an existing admin changes
    /// nothing and publishes nothing.
    pub fn add_admin(env: &mut WatcherEnv, caller: Address, new_admin: Address) -> (r: Result<
        (),
        ContractError,
    >)
        ensures
            r == old(env)@.admin_check(caller),
            r is Err ==> final(env)@ == old(env)@,
            r is Ok ==> final(env)@ == old(env)@.with_admin(caller, new_admin),
    {
        proof {
            use_type_invariant(&*env);
        }
        match Self::assert_admin(env, &caller) {
            Ok(()) => {},
            Err(e) => {
                return Err(e);
            },
        }
        let mut admins = Self::load_admins(env);
        if contains_address(&admins, &new_admin) {
            return Ok(());
        }
        proof {
            lemma_push_fresh(admins@, new_admin);
        }
        admins.push(new_admin);
        env.set_admins(admins);
        env.emit(WatcherEvent::AdminAdded { caller, new_admin });
        Ok(())
    }

    /// Takes `target_admin` out of the admins on behalf of the admin
    /// `caller` and publishes `("admin", "remove")`. Fails with `LastAdmin`,
    /// changing nothing, while there is only one admin.
    pub fn remove_admin(env: &mut WatcherEnv, caller: Address, target_admin: Address) -> (r:
        Result<(), ContractError>)
        ensures
            r == match old(env)@.admin_check(caller) {
                Err(e) => Err(e),
                Ok(()) => if old(env)@.admin_list().len() <= 1 {
                    Err(ContractError::LastAdmin)
                } else {
                    Ok::<(), ContractError>(())
                },
            },
            r is Err ==> final(env)@ == old(env)@,
            r is Ok ==> final(env)@ == old(env)@.without_admin(caller, target_admin),
    {
        proof {
            use_type_invariant(&*env);
        }
        match Self::assert_admin(env, &caller) {
            Ok(()) => {},
            Err(e) => {
                return Err(e);
            },
        }
        let admins = Self::load_admins(env);
        if admins.len() <= 1 {
            return Err(ContractError::LastAdmin);
        }
        let updated = without_address(&admins, &target_admin);
        proof {
            lemma_without(admins@, target_admin);
        }
        env.set_admins(updated);
        env.emit(WatcherEvent::AdminRemoved { caller, target_admin });
        Ok(())
    }

    /// Replaces the whole admin set by `new_admin` on behalf of the admin
    /// `admin` and publishes `("admin", "transfer")`.
    pub fn transfer_admin(env: &mut WatcherEnv, admin: Address, new_admin: Address) -> (r: Result<
        (),
        ContractError,
    >)
        ensures
            r == old(env)@.admin_check(admin),
            r is Err ==> final(env)@ == old(env)@,
            r is Ok ==> final(env)@ == old(env)@.transferred(admin, new_admin),
    {
        match Self::assert_admin(env, &admin) {
            Ok(()) => {},
            Err(e) => {
                return Err(e);
            },
        }
        let admins: Vec<Address> = vec![new_admin];
        assert(admins@ =~= seq![new_admin]);
        env.set_admins(admins);
        env.emit(WatcherEvent::AdminTransferred { admin, new_admin });
        Ok(())
    }

    /// Authorizes `watcher` on behalf of the admin `admin` and publishes
    /// `("watcher", "register")`. Registering an authorized watcher changes
    /// nothing and publishes nothing.
    pub fn register_watcher(env: &mut WatcherEnv, admin: Address, watcher: Address) -> (r: Result<
        (),
        ContractError,
    >)
        ensures
            r == old(env)@.admin_check(admin),
            r is Err ==> final(env)@ == old(env)@,
            r is Ok ==> final(env)@ == old(env)@.with_watcher(watcher),
    {
        proof {
            use_type_invariant(&*env);
        }
        match Self::assert_admin(env, &admin) {
            Ok(()) => {},
            Err(e) => {
                return Err(e);
            },
        }
        let mut watchers = Self::load_watchers(env);
        if contains_address(&watchers, &watcher) {
            return Ok(());
        }
        proof {
            lemma_push_fresh(watchers@, watcher);
        }
        watchers.push(watcher);
        env.set_watchers(watchers);
        env.emit(WatcherEvent::WatcherRegistered { watcher });
        Ok(())
    }

    /// Deauthorizes `watcher` on behalf of the admin `admin` and publishes
    /// `("watcher", "remove")`; removing an address that is not registered
    /// changes nothing and publishes nothing.
    pub fn remove_watcher(env: &mut WatcherEnv, admin: Address, watcher: Address) -> (r: Result<
        (),
        ContractError,
    >)
        ensures
            r == old(env)@.admin_check(admin),
            r is Err ==> final(env)@ == old(env)@,
            r is Ok ==> final(env)@ == old(env)@.without_watcher(watcher),
    {
        proof {
            use_type_invariant(&*env);
        }
        match Self::assert_admin(env, &admin) {
            Ok(()) => {},
            Err(e) => {
                return Err(e);
            },
        }
        let watchers = Self::load_watchers(env);
        if !contains_address(&watchers, &watcher) {
            return Ok(());
        }
        let updated = without_address(&watchers, &watcher);
        proof {
            lemma_without(watchers@, watcher);
        }
        env.set_watchers(updated);
        env.emit(WatcherEvent::WatcherRemoved { watcher });
        Ok(())
    }

    /// Whether `watcher` is an authorized watcher.
    pub fn is_watcher_authorized(env: &WatcherEnv, watcher: Address) -> (b: bool)
        ensures
            b == env@.watchers.contains(watcher),
    {
        let watchers = Self::load_watchers(env);
        contains_address(&watchers, &watcher)
    }

    /// Whether `watcher` is an authorized watcher (the earlier name of
    /// [`WatcherRegistry::is_watcher_authorized`]).
    pub fn is_authorized(env: &WatcherEnv, watcher: Address) -> (b: bool)
        ensures
            b == env@.watchers.contains(watcher),
    {
        Self::is_watcher_authorized(env, watcher)
    }

    /// The authorized watchers, in registration order.
    pub fn get_watchers(env: &WatcherEnv) -> (r: Vec<Address>)
        ensures
            r@ == env@.watchers,
    {
        Self::load_watchers(env)
    }

    /// The admins, or `NotInitialized` before initialization.
    pub fn get_admins(env: &WatcherEnv) -> (r: Result<Vec<Address>, ContractError>)
        ensures
            match r {
                Ok(a) => env@.admins == Some(a@),
                Err(e) => env@.admins is None && e == ContractError::NotInitialized,
            },
    {
        if env.admins.is_none() {
            return Err(ContractError::NotInitialized);
        }
        Ok(Self::load_admins(env))
    }

    /// The first admin, or `NotInitialized` before initialization.
    pub fn get_admin(env: &WatcherEnv) -> (r: Result<Address, ContractError>)
        ensures
            r == match env@.admins {
                Some(a) => Ok::<Address, ContractError>(a[0]),
                None => Err(ContractError::NotInitialized),
            },
    {
        proof {
            use_type_invariant(env);
        }
        match Self::get_admins(env) {
            Ok(admins) => Ok(admins[0]),
            Err(e) => Err(e),
        }
    }

    fn load_watchers(env: &WatcherEnv) -> (r: Vec<Address>)
        ensures
            r@ == env@.watchers,
    {
        env.watchers.clone()
    }

    fn load_admins(env: &WatcherEnv) -> (r: Vec<Address>)
        ensures
            r@ == env@.admin_list(),
    {
        match &env.admins {
            Some(a) => a.clone(),
            None => Vec::new(),
        }
    }

    fn assert_admin(env: &WatcherEnv, caller: &Address) -> (r: Result<(), ContractError>)
        ensures
            r == env@.admin_check(*caller),
    {
        if env.admins.is_none() {
            return Err(ContractError::NotInitialized);
        }
        let admins = Self::load_admins(env);
        if contains_address(&admins, caller) {
            Ok(())
        } else {
            Err(ContractError::Unauthorized)
        }
    }
}

// ── Laws ─────────────────────────────────────────────────────────────────────

/// Every operation keeps the registry well formed: in particular, once
/// initialized it always has at least one admin, and no admin or watcher is
/// listed twice.
pub proof fn operations_keep_well_formed(
    s: WatcherState,
    caller: Address,
    other: Address,
)
    requires
        s.well_formed(),
    ensures
        s.admin_check(caller) is Ok ==> s.with_admin(caller, other).well_formed(),
        s.admin_check(caller) is Ok && s.admin_list().len() > 1 ==> s.without_admin(
            caller,
            other,
        ).well_formed(),
        s.transferred(caller, other).well_formed(),
        s.with_watcher(other).well_formed(),
        s.without_watcher(other).well_formed(),
{
    if !s.admin_list().contains(other) && s.admins is Some {
        lemma_push_fresh(s.admin_list(), other);
    }
    lemma_without(s.admin_list(), other);
    if !s.watchers.contains(other) {
        lemma_push_fresh(s.watchers, other);
    }
    lemma_without(s.watchers, other);
    assert(seq![other].no_duplicates());
}

/// Registering a watcher authorizes it, and registering it again changes
/// nothing; removing a watcher deauthorizes it and leaves every other
/// watcher's authorization as it was.
pub proof fn watcher_registration_laws(s: WatcherState, watcher: Address, other: Address)
    ensures
        s.with_watcher(watcher).watchers.contains(watcher),
        s.with_watcher(watcher).with_watcher(watcher) == s.with_watcher(watcher),
        !s.without_watcher(watcher).watchers.contains(watcher),
        other != watcher ==> (s.without_watcher(watcher).watchers.contains(other)
            == s.watchers.contains(other)),
{
    lemma_without(s.watchers, watcher);
    if !s.watchers.contains(watcher) {
        assert(s.watchers.push(watcher)[s.watchers.len() as int] == watcher);
    }
}

/// Adding an admin gives it the admin rights, and adding it again changes
/// nothing; removing an admin takes its rights and leaves every other
/// admin's as they were.
pub proof fn admin_membership_laws(s: WatcherState, caller: Address, admin: Address, other: Address)
    requires
        s.admins is Some,
    ensures
        s.with_admin(caller, admin).admin_check(admin) is Ok,
        s.with_admin(caller, admin).with_admin(caller, admin) == s.with_admin(caller, admin),
        s.without_admin(caller, admin).admin_check(admin) == Err::<(), ContractError>(
            ContractError::Unauthorized,
        ),
        other != admin ==> s.without_admin(caller, admin).admin_check(other) == s.admin_check(
            other,
        ),
{
    lemma_without(s.admin_list(), admin);
    if !s.admin_list().contains(admin) {
        assert(s.admin_list().push(admin)[s.admin_list().len() as int] == admin);
    }
}

/// A transfer leaves `new_admin` as the only admin: it has the admin
/// rights and every other address, the old admin included, has none.
pub proof fn transfer_leaves_single_admin(s: WatcherState, admin: Address, new_admin: Address, other: Address)
    ensures
        s.transferred(admin, new_admin).admin_check(new_admin) is Ok,
        other != new_admin ==> s.transferred(admin, new_admin).admin_check(other) == Err::<
            (),
            ContractError,
        >(ContractError::Unauthorized),
        s.transferred(admin, new_admin).watchers == s.watchers,
{
    assert(seq![new_admin][0] == new_admin);
    if other != new_admin {
        assert(!seq![new_admin].contains(other));
    }
}

/// The admin set and the watcher list are independent: adding, removing
/// or transferring admins leaves the watchers as they were, and registering
/// or removing a watcher leaves the admins as they were.
pub proof fn admins_and_watchers_are_independent(
    s: WatcherState,
    caller: Address,
    admin: Address,
    watcher: Address,
)
    ensures
        s.with_admin(caller, admin).watchers == s.watchers,
        s.without_admin(caller, admin).watchers == s.watchers,
        s.transferred(caller, admin).watchers == s.watchers,
        s.with_watcher(watcher).admins == s.admins,
        s.without_watcher(watcher).admins == s.admins,
{
}

/// Adding an admin appends it to the admin list when it is new and leaves
/// the list as it was otherwise; registering a watcher appends it to the
/// watcher list when it is new and leaves the list as it was otherwise.
pub proof fn additions_append_new_members(s: WatcherState, caller: Address, a: Address)
    ensures
        s.admins is Some ==> s.with_admin(caller, a).admin_list() == if s.admin_list().contains(a) {
            s.admin_list()
        } else {
            s.admin_list().push(a)
        },
        s.with_watcher(a).watchers == if s.watchers.contains(a) {
            s.watchers
        } else {
            s.watchers.push(a)
        },
{
}

} // verus!
