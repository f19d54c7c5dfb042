# assetra

Tokenized music royalties: a creator registers, describes a track with its
tokenization terms, mints the track's whole supply into a vault, and sells
tokens at a price derived from the track's declared revenue and valuation
multiple. Revenue the creator deposits accrues per token in a pool; holders
claim their share, and can list tokens for resale to other buyers.

Layout:

- `src/` — the verified library. `state` holds the accounts as plain values,
  `instructions` one module per instruction (checks, errors, new account
  values and the amounts to transfer), `pda` the seeds and derived addresses
  of every account, `laws` the properties proved across instructions
  (checkpoints, shares of a deposit, reward-debt settlement, track ids, the
  minting lifecycle, pricing), and `ledger` the solvency of the revenue pool
  over sequences of deposits, openings, purchases, resales and claims (tokens
  bought into a position whose checkpoint lags the pool are left out: a claim
  pays them for earlier revenue).
- `tests/` — tests of the library on concrete values.
- `app/` — the on-chain program: account validation, runtime calls, token
  and lamport transfers, around the library.
