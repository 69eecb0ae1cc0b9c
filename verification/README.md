# Phantom

An anomaly detection engine for weather markets, price regime changes and
geospatial feeds (flights, earthquakes), with signals for Kalshi prediction
markets.

## Layout

- `src/` — the verified library (Verus). Every function carries a contract
  and is proved:
  - `daemon/` — the rolling feed buffer and the background daemon's state
    and per-poll decisions;
  - `detectors/` — severity, regime and confidence rules of the three
    detectors and the windows they analyse;
  - `signals/` — the signal engine's action and label rules;
  - `api/` — the signal log (listing, resolution lookup, outcome tally,
    metrics), request validation, the feed cache, and the parameter checks
    of the analysis endpoints;
  - `feeds/` — Kalshi request paths, signing and authentication headers,
    aircraft altitude tracks, chronological earthquake ordering;
  - `ftle/` — delay embedding of a series.
- `app/` — the executable around it: HTTP server and handlers, feed
  clients, the daemon's tokio tasks, persistence of the signal log, and the
  floating-point chaos analysis (Lyapunov estimation, echo-state network),
  which `temporal-attractor-studio` provides.
- `tests/` — tests of the library on concrete values.

Run `phantom` for the synthetic demo, `phantom --live` to fetch real feeds,
and `phantom --api` to serve the HTTP API on port 8080.
