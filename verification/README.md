# pinginfo

A small reachability monitor: targets are probed over ICMP or TCP, each
outcome updates the target's health, results and per-minute roll-ups are kept
in SQLite, and a web interface shows them.

`src/` is the verified library:

- `models` – probe kinds, target submissions and their validation, probe results.
- `status` – the per-target health state machine (down after three failures in a row).
- `board` – the shared table of statuses, keyed by target id.
- `events` – grouping of failed probes into failure events.
- `api` – duplicate detection for bulk imports and the windows that queries read.
- `records` – rows as stored and read back, query windows, retention, roll-up contributions.
- `probe` – probe timing and the result that each way a probe can end produces.
- `config` – command-line options and environment defaults.
- `text`, `time` – trimming, integer reading and rendering, instants.

`app/` is the service around it: the HTTP server, the SQLite queries, the
network probes, the probe loops and the start-up code.
