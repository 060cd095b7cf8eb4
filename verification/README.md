# funpay_rs

An unofficial SDK for FunPay.com, the P2P gaming marketplace, whose logic is
verified with Verus.

## Layout

- `src/` — the verified library. Each public function states in its
  `ensures` what it returns, over spec functions and views:
  - `parser` reads game lists, offer listings, single offers and user
    profiles from page HTML; `auth` extracts CSRF tokens.
  - `number` reads integers and exact decimal prices (`Amount`).
  - `models`, `error` hold the data types and errors.
  - `retry`, `client` hold the retry policy, the rate limiter's arithmetic,
    the client configuration and the per-attempt retry decision.
  - `search`, `monitor` hold search filters, result merging and price-change
    detection.
  - `cookies`, `ws`, `ua`, `export`, `middleware` hold the remaining rules.
  - Outside calls each sit behind a stated contract: `scraper` in `html`,
    `serde_json` in `json`, `chrono` and `url` in `parser`, `rand` in `ua`,
    and `std::time` in `time`.
- `tests/` — tests of the library on concrete values.
- `app/` — the unverified shell: the `reqwest` client that drives
  `RequestState`, async streaming, file I/O, WebSocket connection and
  serde/CSV export.

## Laws proved

Public proof functions state properties that span several calls, for example
`lemma_symbol_round_trip`, `lemma_amount_order`, `lemma_delay_monotone_capped`,
`lemma_same_snapshot_no_events`, `lemma_monitor_events_as_set`,
`lemma_snapshot_is_map`, `lemma_wait_spacing`, `lemma_absorb_distinct`,
`lemma_filter_sound` and `lemma_saved_key_loads`.
