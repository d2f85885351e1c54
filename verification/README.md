# the_block_node

The verified core of a blockchain node, written in Verus.

- `vm` — the metered stack VM, its gas rules, contract state and runtime,
  a debugger, a small WASM-style interpreter and HTLC contracts.
- `utxo` — locking scripts and a UTXO ledger.
- `transaction` and `tx` — transactions, their canonical binary layout
  (with proofs that decoding gives back what was encoded) and the
  signature checks a transaction needs.
- `storage` — object manifests and their binary layout, erasure layout,
  rent escrow, coding settings and fallback policy, marketplace queries,
  repair planning and accounting, pipeline bookkeeping and migrations.
- `telemetry` — metric state updated by verified functions: label
  sanitizers, consensus, energy, treasury and receipt metrics, log rate
  limiting, sampling and backend reports.
- `util` — the binary cursor, struct decoding, versioned blobs and text
  helpers.

`app/` holds what needs the process: clocks, randomness, environment,
files and databases.  `tests/` exercises the library on concrete values.

## Outside crates

- `blake3` gives BLAKE3 (plain and keyed), `sha3` gives SHA3-256 and
  `ripemd` gives RIPEMD-160.  The library trusts each of them through one
  small wrapper in `src/hashing.rs`, whose contract names the digest
  without spelling it out.
- CRC-32 (IEEE) is computed in `src/hashing.rs` and proved against its
  bitwise definition; `crc32fast` is only used by the tests, to cross-check
  it.
- `serde`, `serde_json`, `bincode`, `sled` and `rand` are used by `app/`
  alone.
