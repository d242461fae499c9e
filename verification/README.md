# buddhaland

The pallets of the Buddhaland chain as a verified library: non-transferable
karma earned by check-ins, tasks and meditation and spent on merit actions;
prayers; meditation sessions and their rewards; the exchange of the native
token for karma; a paymaster that lets proxies pay for their users' calls;
memorial halls and the ceremonies held in them; and share mining, which pays
out a pot to accounts whose posts mention the project.

Every pallet is a plain Rust value. Its storage is modelled as a state of
maps and sequences (the `@` view), and each call states, in its contract,
the new state and the result for every input. Work the chain does outside a
pallet (balance transfers, dispatching a proxied call, fetching a web page)
splits a call in two: the first half returns what is to be done, the host
does it, and the second half finishes the call with the outcome.

Layout:

- `src/primitives.rs`: accounts, origins, saturating arithmetic, transfers.
- `src/storage.rs`: a finite map with a `Map` view, used for storage.
- `src/karma.rs`, `prayer.rs`, `meditation.rs`, `reward.rs`, `exchange.rs`,
  `paymaster.rs`, `commemorate.rs`, `share_mining.rs`: the pallets, each with
  the laws it keeps as proof functions at the end of its file.
- `src/runtime.rs`: the chain's constants and the pallets composed.
- `tests/`: tests of each pallet on concrete values.
- `app/`: SCALE-encodable copies of the storage types, and drivers that make
  the transfers, dispatches and page fetches between the two halves of a call.
