# split

A verified library for on-chain invoice splitting. A creator defines an
invoice with several recipients and the amount owed to each; payers
contribute funds; the payment that completes the funding routes every share
to its recipient, and if the deadline passes first the payers are refunded.
A subscription of `months` months chains one invoice per month, the next
created when the previous one is released; the holders of the per-share
proceeds tokens may instead claim their shares before a claim deadline,
after which the creator reclaims what is left; completed invoices get a
SHA-256 completion proof stamped with the time they were finalized.

Layout:

- `src/` — the rules, verified with Verus. `types.rs` holds the records,
  `rules.rs` states every rule as a specification, `contract.rs` implements
  the operations of `SplitContract` against it, `completion.rs` builds
  completion proofs, `amounts.rs` the `i128` sums, and `laws.rs` proves the
  properties of the whole: the invoice invariant every operation keeps, that
  releases and refunds move exactly the funds paid in, that a settled
  invoice cannot be paid, refunded, cancelled or extended again, that a
  share is paid at most once and claims with the reclaim pay out at most the
  total, that every invoice the contract stores is well formed, and that a
  subscription creates exactly as many invoices as it has months.
- `app/` — the Soroban contract around the library: storage, authorization,
  token calls and events.
- `tests/` — tests of the library on concrete values.
