# cadvisor

A cAdvisor-compatible container monitoring daemon for cgroup v2 hosts, whose
logic is a library verified with Verus: Prometheus `/metrics`, the REST API
`/api/v1.0`–`v1.3` and `/api/v2.0`–`v2.1`, and containerd / CRI-O metadata.
The wire formats (JSON keys, metric names and labels, error texts, flag names
and defaults) follow cAdvisor v0.49.2.

## Layout

- `src/` — the verified library. Each public function states in its
  `ensures` what it returns, over spec functions on sequences and integers.
  - `text`, `order` — character-level text helpers and string ordering.
  - `parse` — cgroup and procfs file parsers (`cpu.stat`, `memory.stat`,
    `io.stat`, `/proc/net/*`, `/proc/meminfo`, `/proc/cpuinfo`,
    `/proc/diskstats`, `mountinfo`).
  - `model`, `v2` — the API's data shapes and the v1 → v2 conversions,
    summaries, machine stats and process rows.
  - `host`, `fs`, `machine` — stats and specs from cgroup file texts,
    partitions and usage, machine info assembly.
  - `store`, `events`, `derive` — the time-ordered sample store, the event
    log and CPU counter deltas.
  - `manager` — spec building, container placement, housekeeping intervals,
    discovery sweeps and container selection.
  - `runtime` — container ids, runtime metadata and the lookup policy.
  - `families`, `metrics`, `encode` — the exposition: families, label sets,
    series, ordering and text.
  - `api`, `cli` — routing, query parameters, request options, flags.
- `tests/` — tests of the library.
- `app/` — the server around the library: file and socket I/O, inotify,
  HTTP (axum, hyper), gRPC (containerd), serde copies of the data shapes,
  and the floating-point formatting of sample values.
