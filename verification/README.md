# mini-agent

A small observability agent. Sources produce events (log entries and metric
samples), transforms pass some of them on, and sinks deliver them: to the
console or to Datadog. Components are named in a TOML file and wired by
their `target`s.

Layout:

- `src/` — the agent's logic, verified with Verus: key order and ordered
  field maps (`order`, `fields`), events (`event`, `time`), the filter
  transform (`filter`), component kinds (`component`), the wiring of
  components (`topology`), the Datadog payloads and settings (`datadog`),
  the system-information samples (`sysinfo`), and the decisions of sources
  and sinks (`source`, `sink`).
- `app/` — the binary: configuration parsing, channels, timers, the HTTP
  server, reading the machine, and HTTP requests to Datadog.
- `tests/` — tests of the library.

Design notes:

- Metric tags and log fields live in `FieldMap`, a vector of key/value pairs
  kept in strictly increasing key order (the order of `str`). A
  `BTreeMap<String, _>` gives verified code no usable description of its
  contents when its keys are strings, and the contents of a
  `serde_json::Map` cannot be described as a map of plain values, since
  its values are JSON values. `FieldMap` keeps what those maps gave: one
  entry per key, listed in key order.
- Metric values are carried as the bit pattern of an `f64`; the library
  never computes on them, and the binary converts them for display and
  for the Datadog payload.
- Timestamps are a distance from the Unix epoch with a direction, so a
  clock set before the epoch is represented rather than refused; the
  Datadog series, which need seconds since the epoch, require timestamps
  not before the epoch.
