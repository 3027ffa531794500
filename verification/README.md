# tipjar

A creator tip jar for the Soroban smart-contract platform, with its logic
verified in Verus.

- `src/` is the verified library. `TipJarContract` models the contract's
  ledger (token, administrator, pause flag and one account per creator);
  `init`, `tip`, `tip_with_message`, `withdraw`, `pause` and `unpause` are
  verified transitions that either refuse a request and change nothing, or
  record it and report the authorization, token transfer and event that the
  host must carry out. `ledger.rs` states the transitions over the abstract
  `LedgerView`; `laws.rs` proves properties that span requests.
- `app/` is the Soroban contract itself: it reads the ledger entries a call
  needs, asks the library, and performs the reported effects.
- `tests/` exercises the library on concrete values.
