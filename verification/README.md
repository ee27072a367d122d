# ip_registry

A verified registry of intellectual-property listings. Each listing names an
owner, an IPFS content hash and a Merkle root; each owner has an index of the
listings it holds, in the order they came to it.

- `src/model.rs` — the abstract state and what each operation does to it.
- `src/ops.rs` — what each operation computes from the stored values it reads
  (new id, listing, owner indexes, event), with exact contracts.
- `src/registry.rs` — `IpRegistry`, the whole registry in memory, proved to
  follow the model and to keep it consistent.
- `src/index.rs`, `src/listing.rs`, `src/events.rs`, `src/error.rs` — the
  owner index, listings, events and errors.
- `src/laws.rs` — properties of the registry as a whole, proved over the model.
- `app/lib.rs` — the Soroban contract: storage, authorization, the swap
  contract query, events and storage lifetimes, around the functions of `ops`.
