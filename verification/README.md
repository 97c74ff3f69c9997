# glc_bridge

The decision logic of the bridge between Goldcoin and Solana, verified with
Verus: which outputs a payout spends, what a sweep of the vault is, whom a
round of signatures asks and which answers count, when a transaction is
confirmed, what the on-chain accounts say, and what an operator's or a user's
command is refused for.

- `src/` is the library. Every function states what it returns, and Verus
  proves it. Nothing in it opens a socket, reads a file or looks at a clock:
  work that takes turns with the outside world is a function from a step and an
  event to the next step.
  - `withdrawal/` — coin selection, sweeps, the payout executor.
  - `p2p/` — collecting signatures from peers, and what a validator signs.
  - `solana/` — instructions, accounts, confirmation.
  - `program/` — the metadata handler of the on-chain program.
  - `ops/` — operators, users and services.
  - `glc/`, `bytes`, `text`, `hash` — Goldcoin's side and the basics.
- `tests/` runs it, with the outside crates linked.
- `app/` drives the library: it asks nodes, the database and the peers, and
  hands back what they say.

What the library rests on without proof is marked `#[verifier::external_body]`
or `assume_specification`, each with a comment that says what is claimed of
which outside function: SHA-256, ed25519 verification, program-derived
addresses, the text of keys and signatures, and a few functions of the standard
library.
