# polkapet

Rules of a pet-collecting game: minting pets with random DNA, trading and breeding them,
empowering and respawning them, and mini-games whose winners share a reward. The rules are a
state machine over plain values, verified with Verus.

- `src/types.rs`: pets, mini-games, errors and events.
- `src/model.rs`: the storage as mathematical values, and what each call does to it; the model
  also records what the pallet reads from the runtime (random seeds by subject, extrinsic index,
  block number) and each payment asked of its currency, with the answers.
- `src/pallet.rs` and `src/pallet/`: the storage and the calls, each proved against the model.
- `src/genetics.rs`, `src/scores.rs`, `src/reward.rs`, `src/hashing.rs`: DNA, random numbers,
  scores and reward shares.
- `src/config.rs`: what the runtime provides (block, randomness, currency).
- `src/laws.rs`: properties that span calls.
- `app/`: glue to a FRAME runtime.
