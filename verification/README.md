# minebtc

The game rules of MineBTC as a verified library: country rounds and bets,
claims and the HODL pool, faction-war scoring, rebases, staking, the tax
cranks, HashBeast staking and gameplay, the checks, charges and records of
HashBeast minting, breeding and rebirth, and the market maker's floor book.
Every function states its behaviour in `requires` / `ensures` and Verus
proves it; public proof functions (`lemma_*`) state the laws that hold
across calls.

Some values come from the caller, because the code that computes them is
not part of this library: the bonding-curve price of each mint, the DNA of
new and reborn HashBeasts, and the marked-up relist price of an inventory
asset. The library states what it does with them, not how they are
computed.

Layout:

- `src/` — the library, one module per area (`bets`, `placement`,
  `rewards`, `rebase`, `tax`, `staking`, `autominer`, `hashbeast`,
  `gameplay`, `floor`, `layout`, `math`, `state`, `constants`, `errors`).
- `tests/` — scenario tests run against the compiled library with the real
  Solana, Token-2022 and Metaplex Core crates.
- `app/` — the on-chain edge: lamport and token transfers, Metaplex Core
  calls and the Token-2022 harvest, around the library's decisions.

Calls into outside crates (program-address derivation, Keccak-256, the
Token-2022 mint reader, the Metaplex Core asset reader, the slice sort) go
through a few small trusted wrappers whose contracts name what they return.
