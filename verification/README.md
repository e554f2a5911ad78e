# stellar_wrap

A registry of soulbound "wraps" for Stellar: one record per user and period,
minted by the user with an ed25519 signature of the admin over the contract,
user, period, archetype and data hash. The admin may update or revoke wraps,
hand over the admin role and upgrade the contract.

The library is verified with Verus:

- `src/types.rs` — addresses, symbols, wrap records, storage keys, events, errors.
- `src/table.rs` — the finite maps in which storage entries are kept.
- `src/xdr.rs` — the XDR encodings of the signed message, and the proof that
  the message determines everything it approves.
- `src/crypto.rs` — ed25519 verification and SHA-256.
- `src/state.rs` — the abstract storage and what each invocation does to it.
- `src/contract.rs` — the executable registry, proved against `state.rs`.
- `src/laws.rs` — what every invocation keeps (a user's count is the number
  of wraps it holds, no mint guard outlives an invocation, ...) and what
  holds across invocations (a wrap is minted once, the latest wrap is the
  greatest, ...).

`app/` is the Soroban contract around it: it reads storage into the registry,
obtains authorizations from the host, runs the invocation and writes back,
publishes events and extends time-to-live.
