# updown_trader

Trading of binary Up/Down markets by hand: a price feed in the terminal, one key per action.
`+` places a batch of limit buys on Up, at ask + 0.01; `-` on Down, at the ask plus the
configured offset; `*` cancels the open Up orders, `/` the open Down orders.

In simulation (the default) nothing is sent: an order counts as matched once the ask has come
down to its price, and the matched orders are settled when the market closes. In production
matched orders and positions come from the exchange's fills.

The library under `src/` decides and keeps the books, and is verified with Verus. The program
under `app/` talks to the exchange, reads keys and prints.

| Module | What it holds |
|--------|---------------|
| `amount`, `decimal` | the number type of prices and sizes; decimal quotes |
| `text`, `text_map`, `market_key` | small text operations; a map keyed by text; the key of a market |
| `models`, `config` | data of the exchange; command line and configuration |
| `orders` | placed orders: which match, what they amount to, which are cancelled |
| `fills` | positions from the exchange's fills |
| `trader` | the trader's books: snapshots, placing, cancelling, expiry, fills, simulated positions, settling |
| `slug`, `discovery`, `period` | names of markets, the search for the open one, the change of periods |
| `keys`, `redeem` | what the keys do; what to redeem |
| `terminal`, `display`, `messages` | what is shown |

`orders::laws` and `trader::laws` state what holds of the books whatever happens: for instance
that a simulation sends nothing, that markets do not touch each other, that cancelling takes
back what was placed and keeps what was matched, and that what was bought is never unbought.
For exact amounts, and a lower bound that is not above the upper one, they also state that no
order is ever priced outside the configured bounds.

The library is generic over the number type (`amount::Amount`). `Micros` is exact; the program
uses binary floating point.
