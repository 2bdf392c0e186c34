# ginkgo_dashboard

The data and state logic of the GINKGO sparse-matrix benchmark dashboard,
verified with Verus, and the synthetic benchmark data generator around it.

## Layout

- `src/` — the verified library.
  - `types.rs` — the enum vocabulary (formats, metrics, axes, plot kinds).
  - `state_url.rs` — the `#v1=<base64url(JSON)>` URL state: framing,
    schema check, stable enum names, taking a state from the dashboard and
    applying one to it; the round-trip laws.
  - `data/` — commit rows, the `commits.json` manifest and bench-file
    lookup (`git.rs`), the dashboard state machine that background loads
    report to (`state.rs`), benchmark records without measured values
    (`models.rs`).
  - `datagen/` — manifest upsert with its laws, fake SHAs and commit-series
    metadata, storage byte counts of the sparse formats.
  - `visualization/` — formula-variable resolution with edit-distance
    suggestions, the formats a plot shows, outlier-trim indices, the
    left-to-right order of timeseries datasets, plot settings.
  - `export/` — XML escaping, SVG unwrapping and side-by-side composition,
    export settings and file names, export errors.
  - `cli.rs`, `text.rs` — the `--state` flag, and string helpers.
- `tests/` — tests of the library on concrete values.
- `app/` — the data generator program (`main.rs`), JSON (serde) copies of
  the library's records, file loading driven by the dashboard's state
  machine, formula compilation with exmex, and the floating-point parts:
  the measured-value models and the random data generation, scatter and
  performance-profile data, the A-vs-B comparison (`compare.rs`), the
  timeseries and stacked-bar aggregates (`analytics.rs`), cross-commit
  outlier detection (`outliers.rs`), and the SVG canvas (`svg.rs`).
