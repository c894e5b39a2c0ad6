# perps

The core of a perpetuals exchange, verified with Verus: orders, positions,
swaps, liquidation, auto-deleveraging, fees, insurance, markets, referrals and
the test assets.

Every call of the library is a function from state, ledger and outside facts to
new state and a list of actions. Prices, price impact, the growth of funding and
borrowing, balances and receipts come in as arguments. Transfers, deployments,
calls of other contracts and events go out as actions. A rejected call says why
and leaves the state as it was.

- `src/math.rs`, `src/table.rs`, `src/data_store.rs`, `src/role_store.rs`,
  `src/ledger.rs`, `src/types.rs`: fixed-point arithmetic, keyed tables, the
  shared store, roles, the ledger and the common types.
- `src/market_utils.rs`, `src/position_utils.rs`,
  `src/increase_position_utils.rs`, `src/decrease_position_utils.rs`,
  `src/swap_utils.rs`, `src/impact_pools.rs`: what happens to pools and positions.
- `src/order_handler.rs` and the other handlers, the factory, the router, the
  readers, the referral storage, the test token and the faucet: the contracts.
- `src/books.rs`: the invariants of the whole: interest and positions, lists and
  orders.
- `src/crypto.rs`: hashed keys. SHA-256 comes from `soroban_sdk` and is the one
  thing that is not proved.
- `tests/`: the library on concrete values.
- `app/`: a host that runs the library on Soroban. It keeps the state of the
  contracts in memory, as long as it runs.

Amounts in dollars have thirty decimals, amounts of tokens seven.
