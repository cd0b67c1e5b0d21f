# orbs_backend

Verifiable seeds and game state of the Orbs canister, as a verified library.

- `src/` holds the state of the canister (`state::OrbsState`, a set of sorted tables from
  `table`) and every rule over it, with contracts proved by Verus: seed chunks, Merkle
  trees and proofs (`chunks`, `merkle`), sequential revelation over two chunk slots
  (`revelation`), round snapshots and player history (`rounds`), players, engine configs,
  player configs, join data, admins and the size checks of the endpoints (`api`).
  SHA-256, base58, hex and secp256k1 key parsing are called from their crates behind
  trusted wrappers (`hashing`, `encoding`, `address`).
- `app/` is the canister: endpoints, caller checks, the management canister calls
  (randomness, threshold ECDSA, public key), the clock, floating-point checks, and Candid
  copies of the library's types.
- `tests/` runs the library on concrete values.
