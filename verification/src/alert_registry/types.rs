use vstd::prelude::*;

use crate::address::Address;

verus! {

/// Largest number of alerts a single batch registration may carry.
pub const MAX_BATCH_SIZE: u32 = 20;

/// Largest accepted label, in bytes.
pub const MAX_LABEL_BYTES: usize = 128;

/// Largest accepted number of rule descriptors on one alert.
pub const MAX_RULES: usize = 50;

/// TTL, in ledgers, that every write of a persistent entry extends it to
/// (about 24 hours at 5 s per ledger).
pub const DEFAULT_TTL: u32 = 17280;

/// TTL, in ledgers, used by the explicit `extend_*_ttl` storage helpers.
pub const EXTENSION_TTL: u32 = 100;

/// Errors the alert registry reports to its callers.
#[derive(Clone, Copy, Debug, PartialEq, Eq, Structural)]
pub enum ContractError {
    /// The caller is not the alert's owner, or not the admin.
    Unauthorized,
    /// No alert is stored under the given ID.
    AlertNotFound,
    /// An admin is already set.
    AlreadyInitialized,
    /// No admin has been set yet.
    NotInitialized,
    /// A watcher registry is set and the caller is not an authorized
    /// watcher in it.
    NotAWatcher,
}

/// The conditions under which the contract aborts the whole invocation
/// (the host turns them into a trap), with the message it aborts with.
#[derive(Clone, Copy, Debug, PartialEq, Eq, Structural)]
pub enum Abort {
    /// The label is longer than [`MAX_LABEL_BYTES`].
    LabelTooLong,
    /// More than [`MAX_RULES`] rule descriptors were given.
    TooManyRules,
    /// A rule descriptor is neither `rule:transfer` nor `rule:mint`.
    InvalidRuleDescriptor,
    /// The owner already holds as many stored alerts as the per-owner limit.
    OwnerAlertLimitExceeded,
    /// The ID counter cannot be advanced any further.
    IdCounterExhausted,
    /// The ID to be indexed is already listed in the index.
    DuplicateAlertId,
    /// An index list already holds as many IDs as a host vector can.
    IndexFull,
}

impl Abort {
    /// The message the contract aborts with.
    pub fn message(&self) -> (m: &'static str)
        ensures
            m@ == match *self {
                Abort::LabelTooLong => "label exceeds 128 bytes"@,
                Abort::TooManyRules => "too many rules: maximum is 50"@,
                Abort::InvalidRuleDescriptor => "invalid rule descriptor"@,
                Abort::OwnerAlertLimitExceeded => "owner alert limit exceeded"@,
                Abort::IdCounterExhausted => "attempt to add with overflow"@,
                Abort::DuplicateAlertId => "alert id already indexed"@,
                Abort::IndexFull => "vector length exceeds u32::MAX"@,
            },
    {
        match self {
            Abort::LabelTooLong => "label exceeds 128 bytes",
            Abort::TooManyRules => "too many rules: maximum is 50",
            Abort::InvalidRuleDescriptor => "invalid rule descriptor",
            Abort::OwnerAlertLimitExceeded => "owner alert limit exceeded",
            Abort::IdCounterExhausted => "attempt to add with overflow",
            Abort::DuplicateAlertId => "alert id already indexed",
            Abort::IndexFull => "vector length exceeds u32::MAX",
        }
    }
}

/// Keys of the contract's ledger entries.
#[derive(Clone, Copy, Debug, PartialEq, Eq, Structural)]
pub enum DataKey {
    /// The [`AlertConfig`] stored under an ID (persistent).
    Alert(u64),
    /// The list of alert IDs owned by an address (persistent).
    OwnerIndex(Address),
    /// The list of alert IDs watching a contract address (persistent).
    ContractIndex(Address),
    /// The monotonic ID counter (instance).
    NextId,
}

/// Input payload for one alert of a batch registration; the owner is the
/// caller of the batch.
pub struct AlertInput {
    /// Contract address to watch.
    pub target_contract: Address,
    /// Human-readable label (at most [`MAX_LABEL_BYTES`] bytes).
    pub label: Vec<u8>,
    /// SHA-256 hex digest of the webhook URL.
    pub webhook_hash: Vec<u8>,
    /// Rule identifiers that trigger the alert.
    pub rules: Vec<Vec<u8>>,
}

/// On-chain configuration of a single alert.
pub struct AlertConfig {
    /// Human-readable label for the alert (at most 128 bytes).
    pub label: Vec<u8>,
    /// SHA-256 hex digest of the webhook URL.
    pub webhook_hash: Vec<u8>,
    /// Rule identifiers that trigger this alert (e.g. `"rule:transfer"`).
    pub rules: Vec<Vec<u8>>,
    /// Address that owns and may mutate this alert.
    pub owner: Address,
    /// Contract address being watched.
    pub target_contract: Address,
    /// Ledger timestamp at the time of registration.
    pub created_at: u64,
    /// Ledger timestamp of the most recent update.
    pub updated_at: u64,
    /// Whether the alert is currently active.
    pub active: bool,
}

/// The abstract value of an [`AlertConfig`]: its strings as byte
/// sequences.
pub struct AlertConfigView {
    pub label: Seq<u8>,
    pub webhook_hash: Seq<u8>,
    pub rules: Seq<Seq<u8>>,
    pub owner: Address,
    pub target_contract: Address,
    pub created_at: u64,
    pub updated_at: u64,
    pub active: bool,
}

/// The byte sequences of a list of byte strings.
pub open spec fn strings_view(v: Seq<Vec<u8>>) -> Seq<Seq<u8>> {
    v.map_values(|s: Vec<u8>| s@)
}

impl View for AlertConfig {
    type V = AlertConfigView;

    open spec fn view(&self) -> AlertConfigView {
        AlertConfigView {
            label: self.label@,
            webhook_hash: self.webhook_hash@,
            rules: strings_view(self.rules@),
            owner: self.owner,
            target_contract: self.target_contract,
            created_at: self.created_at,
            updated_at: self.updated_at,
            active: self.active,
        }
    }
}

/// A copy of a byte string.
pub fn clone_bytes(v: &Vec<u8>) -> (c: Vec<u8>)
    ensures
        c@ == v@,
{
    let mut c: Vec<u8> = Vec::with_capacity(v.len());
    let mut i: usize = 0;
    while i < v.len()
        invariant
            i <= v@.len(),
            c@ == v@.subrange(0, i as int),
        decreases v@.len() - i,
    {
        c.push(v[i]);
        i = i + 1;
    }
    assert(v@.subrange(0, v@.len() as int) =~= v@);
    c
}

/// A copy of a list of byte strings with the same bytes.
pub fn clone_strings(v: &Vec<Vec<u8>>) -> (c: Vec<Vec<u8>>)
    ensures
        strings_view(c@) == strings_view(v@),
{
    let mut c: Vec<Vec<u8>> = Vec::with_capacity(v.len());
    let mut i: usize = 0;
    while i < v.len()
        invariant
            i <= v@.len(),
            c@.len() == i,
            forall|j: int| 0 <= j < i ==> (#[trigger] c@[j])@ == v@[j]@,
        decreases v@.len() - i,
    {
        c.push(clone_bytes(&v[i]));
        i = i + 1;
    }
    assert(strings_view(c@) =~= strings_view(v@));
    c
}

impl Clone for AlertConfig {
    fn clone(&self) -> (c: Self)
        ensures
            c@ == self@,
    {
        AlertConfig {
            label: clone_bytes(&self.label),
            webhook_hash: clone_bytes(&self.webhook_hash),
            rules: clone_strings(&self.rules),
            owner: self.owner,
            target_contract: self.target_contract,
            created_at: self.created_at,
            updated_at: self.updated_at,
            active: self.active,
        }
    }
}

/// Events the registry publishes.
#[derive(Clone, Copy, Debug, PartialEq, Eq, Structural)]
pub enum AlertEvent {
    /// Topics `("alert", "register")`, data `(id, owner, target_contract)`.
    Registered { id: u64, owner: Address, target_contract: Address },
    /// Topics `("alert", "remove")`, data `(id, caller)`.
    Removed { id: u64, caller: Address },
}

} // verus!
