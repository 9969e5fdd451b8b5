# finalgo

The discrete core of the finalgo trading algorithm as a verified library,
with the command-line program around it.

## Layout

- `src/` — the library, verified with Verus:
  - `signal` — decisions, final-score classes, score types, their labels,
    the categorical loss table and the score ranges;
  - `tally` — confusion counts of predictions against outcomes;
  - `value_map` — the insertion-ordered result map with unique keys;
  - `data` — data keys, the `dd.mm.yyyy` candle label check, the span of a
    data request, the selection of a cached data window, and the proof that
    a sample's target window lies after its prediction window;
  - `calendar` — trading-day stepping and date parsing/formatting through the
    `trading-calendar` and `chrono` crates, with the count of trading days
    and the proof that stepping back undoes stepping forward;
  - `plan` — the evaluation plan (samples, tickers, cache range) and the
    windows of each sample;
  - `fetch` — the retry rule for data requests (at most `FETCH_RETRIES`
    retries, and exactly how many requests a run of failures costs);
  - `trade` — which sides a ticker may be traded on;
  - `cli` — argument types, the `-o auto` output path and the choice of
    the latest evaluation file;
  - `metric`, `veto`, `consts`, `text` — metric and indicator shells,
    constants, decimal rendering.
- `app/` — the program: market data access, the floating-point indicators,
  scores and metrics, and reporting.
- `tests/` — tests of the library.
