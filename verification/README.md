# yee_assets

Fungible assets for a sharded chain, as a verified state machine.

- `src/encoding.rs`: SCALE encoding of account ids and the shard code taken
  from its tail.
- `src/ledger.rs`: the balance ledger, a finite map keyed by
  (shard code, asset id, holder).
- `src/types.rs`: origins, errors, events and decoded relayed transfers.
- `src/model.rs`: the abstract state and, per call, the state and result it
  leads to.
- `src/assets.rs`: the module itself; every call is proved to act as
  `model.rs` says.
- `src/holdings.rs`, `src/laws.rs`: properties across calls (refused calls
  change nothing, issued ids are fresh, transfers conserve holdings,
  destroying lowers holdings and supply alike, ...).
- `app/`: runtime dispatch glue and the node service, around the library.
