# exchange-sim

A simulated crypto exchange, verified with Verus. Users place market and limit orders at live
prices; accounts, orders and positions live in a store.

- `src/` is the library: order execution (`engine`), the limit order book (`order_book`), profit and
  loss (`pnl`), sessions (`auth`), configuration (`config`), the records (`models`, `db`), and the
  requests of the clients (`api`). Every function has a contract. The contracts of the functions
  that do nothing but call another crate or the standard library (marked `external_body` or
  `assume_specification`: decimal arithmetic, time, tokens, passwords, ids, the concurrent maps,
  some functions on texts) are believed; all others are proved from them.
- `app/` is the service around it: HTTP server, ClickHouse queries, price feed, background tasks.
- `tests/` run the library.

A request that needs the store is a small state machine: it asks one question
(`store::StoreRequest`) and goes on from the reply. The store is never called from the library, so
the contracts hold for every reply.

What requests do as a whole is stated in `ledger`: the effect of each kind of order on balances
and positions, that canceling a limit order gives back what was locked for it, and only once, that
a filled buy costs what it was filled at, that buying and selling again at one price leaves the
balance and the quantity as they were, and that orders make no balance and no position negative.
The store keeps the latest version of a record. What a request writes is what is kept as long as
the clock is not set back, and amounts come back in full as long as no sum or difference has to be
rounded: the laws say so where they need it. `pnl_laws` states what holds of the profit and loss:
that unfilled orders do not count, and, where no sum is rounded, that the totals agree and that
the order of the orders does not matter. `protocol` states that a request can go on from every
reply to its question.

Numbers are `rust_decimal`'s. Where a computation leaves their range, the library says so with
`AppError::Overflow`, and the service abandons the request.
