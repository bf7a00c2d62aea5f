# zkproofs

Execution traces, transition constraints and boundary assertions for three small
STARK statements over winterfell's 128-bit prime field, verified with Verus:

- `multiplication`: a trace that multiplies `a` by `b` in one step; its assertion
  claims the product 15.
- `sha256`: a trace that carries the SHA-256 digest of a text; its assertions claim
  the digest of "Hello World!".
- `merkle`: a trace that climbs a four-leaf SHA-256 Merkle tree (leaves "L1" to
  "L4") from leaf "L2" to the root; its assertions claim the root.

`src/field.rs` holds the field arithmetic, `src/hashing.rs` the SHA-256 word helpers
and the pair hash, `src/trace.rs` the trace table and `src/air.rs` what the
statements share. `app/` turns the traces into winterfell proofs and also holds two
Groth16 demonstrations written with arkworks.
