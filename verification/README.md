# pulse

Pulse is a peer-to-peer social protocol: identities are Ed25519 keys,
speech acts are signed *stubs* of at most 300 characters, and what a user
sees is shaped by a social graph of trust, watch and silence edges.

This crate is the verified core of a Pulse node, written in Verus. Verus
checks every function in `src/` against its contract. One function has no
contract: `Stub::content_hash`, which returns an opaque `blake3::Hash`. The calls into cryptography
and compression crates have assumed contracts, each stated in the `ext_*`
module of its crate.

## Layout

- `src/format.rs`, `compression.rs`, `signing.rs`, `validation.rs`: the
  binary stub format, LZ4 inline content, signing and the ingestion checks.
- `src/keypair.rs`, `keystore.rs`: identities and the passphrase-encrypted
  keystore.
- `src/graph_store.rs`, `branch_store.rs`, `profile_store.rs`,
  `signer_store.rs`, `stub_store.rs`: the stores, modelled as sequences in
  storage order with the semantics of their SQL and key-value backings.
- `src/edges.rs`, `feed.rs`, `profile.rs`: signed edges, the trust-shaped
  feed and profile metrics.
- `src/messages.rs`, `protocol.rs`, `node.rs`: gossip messages and what a
  node accepts, records and publishes.
- `src/views.rs`: what the front end shows, and the reading of its input.
- `src/sorting.rs`, `bytes.rs`, `decimal.rs`: stable sorting, byte
  encodings and decimal notation.
- `app/`: persistence (SQLite, RocksDB), the libp2p node, JSON forms and the
  operations the desktop front end invokes.
- `tests/`: tests of the library on concrete values.
