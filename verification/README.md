# arthneura_core

Verified settlement logic for autonomous agents: an identity registry with
post-quantum (ML-DSA-65) proofs of key possession, Merkle-root delivery
commitments with chunk-level disputes, and an escrow of funds. Every
function under `src/` carries a Verus contract; calls into outside crates
(hashing, SCALE encoding, ML-DSA, Merkle trees, Argon2id, ChaCha20-Poly1305,
base64, hex, randomness) sit behind small trusted wrappers whose doc comments
say what is assumed of them.

## Layout

- `src/types.rs`, `src/table.rs`, `src/ledger.rs`: DIDs, origins and
  dispatch errors; a verified key/value table; the block clock and the
  free/reserved balances that deposits and escrow move.
- `src/agent_registry.rs`: registration, profiles, lifecycle, peer stars,
  protocol slashing and deregistration, with the registry invariant and its
  laws.
- `src/vector_db.rs`: the commitment lifecycle and dispute adjudication,
  with the store invariant and the finality of settled and resolved
  commitments.
- `src/escrow.rs`: lock, release and refund, and their laws.
- `src/runtime.rs`: the adapters that wire the three together.
- `src/crypto.rs`, `src/merkle.rs`: BLAKE2b-256, SCALE encodings, ML-DSA-65
  verification and the Merkle hasher, behind trusted wrappers.
- `src/chunk_store.rs`, `src/agent_client.rs`, `src/keystore.rs`,
  `src/paths.rs`: the client side: splitting payloads into chunks, building
  trees and counter proofs, preparing registrations, sealing and opening
  the encrypted identity file.
- `app/`: the command-line client: node RPC, files on disk, environment.
- `tests/`: scenario tests of each operation, and concrete instances of the
  laws.
