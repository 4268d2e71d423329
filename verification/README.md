# gane

Verified building blocks of the G.A.N.E navigation platform, written in Verus.

## Layout

- `src/` — the library. Its functions carry `requires`/`ensures` contracts that Verus
  proves (the ones that only read the clock, such as `Span::elapsed`, state nothing of
  the time they return); public proof functions named `law_*` state properties that span several
  operations (a read after a write, what a rollback undoes, the order items leave a
  queue, and so on).
  - `jumphash` — jump consistent hashing and FNV-1a key hashing.
  - `lru` — a capacity-bounded LRU cache with per-entry time-to-live.
  - `prioritymap` — a keyed priority queue.
  - `mesh` — circuit breakers.
  - `migration` — migration plans, versions and the runner that applies and rolls back.
  - `plugins` — the plugin registry and prioritised hooks.
  - `pipeline` — records, transforms, ingestion, batch jobs and stream windows.
  - `perf` — lazy resource loading, memory budgets, object pools and spans.
  - `offline` — the offline synchronisation queue.
  - `notifications` — push notifications, preferences and delivery.
  - `marketplace` — listings, search and installations.
  - `parking` — parking reservations and route plans.
  - `profile` — trip grouping into travel patterns.
  - `osm_import` — OSM highway classification, one-way tags and the splitting of ways
    into legs at shared nodes.
  - `observability` — log configuration and the OpenAPI document of the HTTP API.
  - `monitoring` — dashboard definitions and SLO window counts.
  - `metrics` and the smaller modules hold the integer and text parts of those components.
  - `text`, `types` — shared string helpers, entity identifiers and wall-clock time.
- `app/` — ordinary Rust around the library: logging set-up, JSON rendering of the
  OpenAPI document and dashboards, Overpass JSON parsing, shared metric handles, and the components whose logic is floating-point
  arithmetic (geodesy, statistics, ratings in stars, model training and serving).
- `tests/` — unit tests of the library.

## Conventions

- Timestamps are milliseconds since the Unix epoch (`i64`).
- Entity identifiers are 128-bit values; fresh ones are random version-4 UUIDs.
- Marketplace ratings are kept in thousandths of a star (1000 to 5000), and dashboard
  thresholds in thousandths of the panel's unit.
- Calls into other crates and into the system clock go through small trusted wrappers
  (`#[verifier::external_body]`) whose doc comments say what their contracts assume.
