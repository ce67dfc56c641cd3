# aerx

The AERX contracts on NEAR: the AEX fungible token and the AERX profile and
post NFTs, with their state, rules and payment flows proved correct with
Verus.

- `src/` is the verified library. Each contract is a state machine: a call
  takes the state and what the runtime reports (caller, attached deposit,
  gas, storage measurements, other contracts' answers) and yields the new
  state and the actions the runtime must take. Contracts state the results
  exactly, over abstract views of the state; invariants (supply equals the
  sum of balances, token ownership agrees with each owner's token list,
  earnings, repost numbering, token records sorted by id) are part of each
  type's well-formedness and kept by every call.
- `tests/` exercises the library on concrete flows.
- `app/` binds the library to the NEAR SDK: state storage, the
  environment, promises, events, JSON, and the floating-point price and
  share computations.
