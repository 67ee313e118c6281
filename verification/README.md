# Market Stream Gateway

A demand-driven gateway that presents public futures market data of six venues (Bybit, Binance
USD-M, OKX, KuCoin Futures, MEXC Futures and BingX Swap) through one provider-neutral contract.
Venue identity and exact venue symbols remain explicit, decimal values stay lossless strings, and
missing market data is never invented.

The library under `src/` is written in Verus: what each function does is stated in its contract and
proved. The program under `app/` is ordinary Rust around it and holds what needs sockets, clocks,
tasks and randomness.

## The library

| Module | What it holds |
| --- | --- |
| `domain` | Venues, symbols, subscription keys, tickers, candles and events |
| `providers` | The venue adapters: commands to send, and what frames mean |
| `runtime` | One connection to a venue as a state machine, and when to connect again |
| `gateway` | Demand and its limits, and the routing of events to client queues |
| `catalog` | Instrument catalogs: reading them, keeping them, resolving keys in them |
| `history` | Candle requests, their pages, and the result put together |
| `protocol`, `wire` | Commands that clients send, and the documents that they are sent |
| `api` | Commands applied to demand, client sessions, and the REST answers |
| `health`, `config`, `metrics`, `venues` | Endpoint states, settings, labels, sets of venues |
| `json`, `decimal`, `weburl`, `text`, `keyset`, `table` | Documents, numbers, URLs, text and collections |

Functions whose names begin with `law_` state what holds of the library as a whole, such as that a
refused command changes nothing, that an event reaches only clients that demand it (one whose queue
was overrun still demands it, but receives nothing more), or that a failed catalog refresh keeps the
last complete snapshot.

JSON, decimal numbers, URLs and random identifiers come from `serde_json`, `rust_decimal`, `url` and
`uuid`. Each call into them stands in one function whose doc comment says what is taken on trust.

## The program

`app/` reads its settings from arguments and `MSG_*` environment variables, refreshes the catalogs,
connects to the venues that clients demand, and serves `/health/live`, `/health/ready`, `/metrics`,
`/v1/providers`, `/v1/instruments`, `/v1/catalog/status`, `/v1/candles` and the WebSocket
`/v1/stream`. Run with `healthcheck` as its first argument, it asks a running gateway whether it is
ready.

## MEXC and BingX

Live tickers and candles of MEXC and BingX are read, and so are their candle histories. The format
of their instrument catalogs is not known, so every refresh of one fails. While either venue is
enabled its catalog stays empty: the gateway does not become ready, and subscriptions and candle
requests for the venue are refused. Choose the other four venues for a gateway that becomes ready.
