# dao_contracts

The decision logic of a set of DAO contracts for CosmWasm chains, written
in Verus and proved against its contracts:

- `proposal_single`, `proposal_multiple`, `govmod_single`: proposal
  modules (creating proposals, voting, passing and rejecting by
  threshold or quorum, executing, closing, hooks, listings), with the
  invariant that every proposal's tally is the sum of its ballots. In
  `proposal_single` the handlers also give back the messages they send:
  the execution of a passed proposal by the DAO, the notices to hook
  receivers, each tagged for the reply that a failure brings, and the
  instantiation of a pre-propose module; `reply_id` lays out those tags.
- `threshold`, `voting`, `status`, `expiration`, `hooks`, `deposit`:
  the shared vocabulary of those modules, with exact vote counting in
  wide arithmetic.
- `governance`: the DAO core (configuration, voting and governance
  modules, replies of module instantiation).
- `names_registry`, `named_groups`, `fund_distributor`,
  `native_voting`, `pre_propose`: the other contracts of the set.
- `table`, `key_order`, `math`: ordered string-keyed tables, the byte
  order of keys, and 256-bit multiplication and division.

Public proof functions named `law_*` state properties that hold across
calls. What only the chain can answer (balances, voting powers, the
serialized form of messages) is handed to the library by its caller.

`app/` holds the entry points of the governance core, the names
registry, named groups, the fund distributor, native voting and the
early single choice module: message
decoding, storage and chain queries around the library. `tests/` runs
the library on concrete scenarios.
