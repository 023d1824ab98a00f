# puzzle_contracts

Verified state machines for a family of Soroban game and finance contracts
(achievements, auctions, airdrops, battle passes, bounties, crafting, escrows,
governance, identity, insurance, liquidity pools, lotteries, matches, relays).

- `src/` is the library, checked by Verus. Each module holds one contract:
  its storage as plain values (addresses and symbols are numbers; an
  acting account whose address a contract hashes comes as a
  `common::Account`, its number with the host's encodings of the address),
  and each entry point as a function from the old storage, the ledger time or
  sequence it reads, and its arguments, to the new storage, its result, and
  the token transfers it asks the host to make. Contracts are stated over
  spec functions and views; the laws of each contract (conservation of
  supply, claims paid once, votes cast once, final states, ...) are public
  proof functions beside it. `src/host.rs` holds the few host services the
  logic calls (SHA-256 and Keccak-256), as trusted wrappers.
- `tests/` runs the library on concrete values.
- `app/` is the host side: it numbers Soroban addresses and symbols (and
  encodes the acting ones), carries
  out the returned token transfers, draws the crafting roll inside the
  contract invocation, drives the relay's calls into other
  contracts, serialises what only the host can, and publishes events.
