# fleet

Verified core of a mine fleet live tracker: haul trucks send telemetry
frames to a backend, which keeps the latest frame and a bounded history per
truck, classifies the truck's health and pushes updates to a dashboard.

- `src/` — the library, verified with Verus:
  - `proto` wire records (float fields carried as IEEE-754 bit patterns),
  - `floatbits` ordering of those bit patterns,
  - `health` the rule-based health classifier and its laws,
  - `state` the per-truck store (snapshot, ring-buffer history, active
    conditions) on a `dashmap::DashMap`,
  - `ingest`, `error`, `dto`, `stream` request admission, errors, dashboard
    labels and live-stream event selection,
  - `sim` the simulator's lifecycle, fault timing and retry decisions,
  - `order`, `text` identifier ordering and decimal rendering.
- `app/` — the two programs around it (`fleet backend`, `fleet sim`): HTTP,
  SSE, protobuf, the update bus, and the simulator's floating-point physics.
- `tests/` — executable tests of the library.
