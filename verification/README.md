# rust_monitoring_system

Metrics (counters, gauges, histograms, summaries), a registry that enforces a
cardinality limit and expires unused metrics, a Prometheus text exporter,
dashboards, system collectors and an auto-scaler.

Layout:

- `src/` — the verified library (Verus). `base/` holds metrics, labels,
  how integers read as `f64`,
  errors, the registry, gauge and counter updates, and the monitor;
  `exporters/` the Prometheus text format and dashboards with their HTML page;
  `collectors/` the readings of `/proc`, memory histories and the gauge
  updates each collector makes; `scaling/` the rule-based and predictive
  auto-scalers.
- `app/` — plain Rust around the library: `f64` observations, shared handles
  and background threads, the `sysinfo` collectors, the tokio scaling loop,
  and JSON/HTML export through serde.
- `tests/` — tests of the library.
