# polymarket

The core of a prediction-market trading platform, verified with Verus.

`src/` is the library. Its contracts are stated over mathematical models
(sequences of price levels, maps of channels, decimal values as integers)
and proved:

- `orderbook`, `matching`, `engine`: price-time-priority order books, the
  matching of limit and market orders, and the engine that keeps one book
  per market outcome; `book_laws` proves what every operation keeps
  (books stay uncrossed, market orders never rest, limit orders trade only
  within their price), and `book_invariant` that each book's cancellation
  index names exactly its resting orders (so that cancelling an order which
  rested nowhere before it was added gives the book back as it was), that
  resting orders keep shares left (for a market buy, as long as no
  rounding of its quote works against the resting sell), and that matching
  a limit order or a market sell accounts for every share when the
  subtractions involved are exact.
- `settlement`: what a trade moves between buyer and seller.
- `feed`, `feed_laws`: market channels of the live feed and the requests
  of a feed connection.
- `validation`: the checks of every request body.
- `auth`, `market`, `wallet`, `config`: the decisions of the services.
- `cdc`: how row changes are stored for analytics.
- `decimal`, `text`, `util`: decimals, texts and credentials, through
  `rust_decimal`, `uuid`, `argon2`, `chrono`, `validator` and `rand`.

`app/` runs the services (`auth`, `account`, `admin`, `market`, `matcher`,
`feed`, `cdc`): HTTP, WebSocket, NATS, Kafka, Postgres, Redis, ClickHouse
and e-mail, around the library.

`tests/` exercises the library on concrete values.
