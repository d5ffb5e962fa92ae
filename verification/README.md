# zbx_chain

The core logic of the ZBX chain services, written in Verus: every function
carries a `requires` / `ensures` contract and is proved against it.

## Layout

- `src/common.rs`, `src/table.rs`, `src/text.rs`, `src/crypto.rs`: shared
  arithmetic helpers, an association table with a `Map` view, the string
  operations the library needs, and the hash functions (Keccak-256, SHA-256,
  SHA3) taken from the `sha2` / `sha3` crates.
- `src/oracle/`: price feeds, Merkle commitments of a round's prices and
  their inclusion proofs, multi-chain aggregation, heartbeats, circuit
  breaker, reporter signatures (secp256k1 through `k256`), slashing of
  outlying reporters and the round state machine.
- `src/pool/`: constant-product pairs with fees and their guards (deadline,
  price impact, reserve drain, oracle deviation, slippage), router, factory,
  LP and ZRC-20 tokens, the pending transaction pool and its content API.
- `src/perp/`: perpetual futures positions, margin and liquidation, funding,
  the trading engine and the decoding and dispatch of its contract calls.
- `src/payid/`: Pay ID handles, their parser, resolver and registry with a
  lookup cache.
- `src/pq/`: ML-DSA-65 keys and signatures (through `fips204`), hybrid
  ECDSA + ML-DSA signatures, and a Kyber-768-sized key encapsulation built
  from SHA3.
- `src/payment/`: oracle-backed payment estimates, merchant records and
  signed webhook payloads.
- `tests/`: executable tests of the library.

Laws that relate several operations stand in `src/` as public proof
functions whose names begin with `lemma_`.

## Checking

The library is checked with Verus; the tests run with Cargo against the
compiled library.
