# saito

Blocks of the Saito chain, verified with Verus.

- `src/bytes.rs` — big-endian integers and byte-buffer helpers, with their
  round-trip lemmas.
- `src/crypto.rs` — hash, key and signature types; the BLAKE3 hash.
- `src/time.rs` — the wall clock in milliseconds.
- `src/slip.rs` — slips and their 75-byte wire format.
- `src/transaction.rs` — transactions, their wire format, the bytes their
  signature covers, and their fees.
- `src/merkle.rs` — merkle tree nodes and the root they fold down to.
- `src/block.rs` — blocks: wire format and its round trip, block hash,
  merkle root, consensus values (fee payout), fee bookkeeping, validation.
- `src/burnfee.rs` — the integer side of the burn fee curve.
- `app/` — the floating-point burn fee curve, the serde/bincode storage
  encoding, and validation against a node's block map.

Every 32-byte hash in the block format (block hash, signature hashes,
merkle nodes) is BLAKE3, computed by the `blake3` crate: a fixed-size,
fast hash with a maintained Rust implementation, called rather than
re-implemented here.
