# hftbacktest

A backtesting and live-trading toolkit for high-frequency trading strategies, written in Verus:
the library in `src/` is verified against its contracts, and `app/` holds what Verus does not
check (file and network I/O, threads, floating-point prices, fees and latencies).

Prices are held in ticks and quantities in lots throughout the library; `app/convert.rs` turns
the recorded decimal prices and quantities into them.

- `src/depth`: market depth kept in hash maps, in vectors over a range of interest, and fused
  from several feeds.
- `src/backtest`: the event schedule and clock (`evs`, `goto`), the order buses, the exchange
  and local processors (`proc`), latency and queue position models (`models`), and the data
  cache, reader and NumPy file format (`data`).
- `src/connector`: the configuration of the Binance Futures and Bybit connectors, and the
  Bybit order manager.
- `src/live`: the settings of the inter-process channel between bots and connectors.
- `app/`: file reading and writing, the backtest facade that drives the library's processors,
  the interpolated latency model, the account's fees and equity, and printable errors.
- `tests/`: the tests, run against the compiled library.
