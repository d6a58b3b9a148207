//! Verified models of the Stellar TxWatch registry contracts.
//!
//! * [`alert_registry`] keeps alert configurations, the per-owner and
//!   per-contract indexes over them, the ID counter, the optional admin and
//!   the per-owner alert limit.
//! * [`watcher_registry`] keeps the admin set and the set of authorized
//!   watcher nodes.
//!
//! Each contract's ledger state is held in a plain value (`AlertEnv`,
//! `WatcherEnv`) whose abstract view the contracts of every operation speak
//! of. Host concerns (signature checks, reading and writing ledger entries,
//! publishing events) belong to the embedding contract shell.
pub mod address;
pub mod alert_registry;
pub mod lists;
pub mod watcher_registry;
