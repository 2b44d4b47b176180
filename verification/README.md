# devflow

DORA delivery metrics (deployment frequency, lead time for changes, change
failure rate, time to restore) and a few bonus metrics (PR cycle time, review
pickup, CI pass rate, PR size) computed from a GitHub organisation's pull
requests, deployments and Actions runs, shown in a terminal dashboard.

## Layout

- `src/` — the library, written in Verus and verified:
  - `types.rs` — records, computed metrics, DORA levels;
  - `metrics.rs`, `summary.rs` — the DORA engine: medians, bands, daily
    histories and rates, stated over exact integer values (twice a median
    in minutes, fractions as numerator and denominator);
  - `breakdown.rs` — per-repository and per-author statistics;
  - `github.rs` — the decisions taken while reading the REST API (pages,
    windows, status mapping, repository cap);
  - `config.rs`, `text.rs` — settings from environment values;
  - `app.rs`, `display.rs` — dashboard state and presentation rules;
  - `demo.rs` — the demonstration dataset;
  - `clock.rs` — instants and the system clock;
  - `seqs.rs`, `sorting.rs` — sequence and sorting lemmas;
  - `laws.rs` — properties of the library as a whole, proved.
- `tests/` — tests of the library on concrete values.
- `app/` — the terminal program: environment, HTTP requests, event loop and
  drawing.

Run with `--demo` for generated data (over 90 days), or set `GITHUB_TOKEN`,
`GITHUB_OWNER`, and optionally `GITHUB_REPOS` (comma-separated) and
`DEVFLOW_LOOKBACK_DAYS`, the number of days both fetched and summarized
(90 when unset).  Press `r` to fetch again.
