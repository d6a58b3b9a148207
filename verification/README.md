# txwatch_registry

Verified models of the two Stellar TxWatch registry contracts, written in
Verus.

* `src/alert_registry/` — alert configurations keyed by a numeric ID,
  indexed by owner and by watched contract, with an optional admin, a
  per-owner alert limit and an optional watcher registry that gates the
  alert queries. Labels, webhook hashes and rule descriptors are byte
  strings.
  * `types.rs` — errors, abort conditions, storage keys, configurations,
    events.
  * `storage.rs` — the ledger state (`AlertEnv`), its abstract view
    (`AlertState`) and the storage operations, including entry TTLs.
  * `contract.rs` — the entry points (`AlertRegistry`) and the `check_*`
    functions that say beforehand whether an entry point would abort.
  * `laws.rs` — the registry's invariant and properties spanning several
    operations (fresh IDs, index consistency, exact queries, pagination,
    the per-owner limit, admin hand-over), including laws over any
    sequence of entry-point calls (`AlertCall`, `apply_all`).
* `src/watcher_registry.rs` — the admin set and the authorized watchers
  (`WatcherRegistry`), whose state keeps at least one admin once
  initialized and never lists an address twice.
* `src/lists.rs` — facts about lists with an element removed or appended.
* `src/address.rs` — Stellar addresses as plain values.

`app/` holds the Soroban contract shells: they check signatures, read the
ledger entries a call can touch into the model state, run the verified
operation, write back what changed and publish the recorded events. When a
watcher registry is set, the alert queries ask it, by a cross-contract
call, whether it authorizes the caller, and hand the answer to the verified
query.

`tests/` exercises the library on concrete values.
