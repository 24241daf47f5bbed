# external_logger

A log ingestion service: clients post batches of log entries over HTTP,
entries are appended to Redis streams (one per service and one global),
history is read back per service, and WebSocket subscribers receive new
entries that pass their filter.

- `src/` is the verified library (Verus): log levels and entries, request
  validation, the ingestion state machine, history and service listings,
  stream naming, configuration defaults, and the decisions of a WebSocket
  subscription. Every public function carries a contract.
- `app/` is the executable around it: axum routes, Redis I/O, the broadcast
  channel, serde wire types and logging.
- `tests/` runs the library on concrete inputs.
