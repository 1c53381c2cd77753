# mise_otel

Trace bookkeeping and OTLP/HTTP payload construction for `mise run`, verified with Verus.

- `src/trace_context.rs`: the state of one traced run (root span, monorepo group spans,
  ended task spans), its invariant, and the steps that change it.
- `src/span.rs`, `src/types.rs`: collected spans and the OTLP JSON data model.
- `src/log_collector.rs`: log records for task output and the batching rules of the
  log export loop.
- `src/export.rs`: settings, request headers, resource, endpoint URLs and payloads.
- `src/text.rs`: decimal timestamps, hex identifiers, trailing-slash trimming.
- `src/platform.rs`: the calls into std, `rand` and `reqwest`, with their contracts.
- `src/properties.rs`: properties that span several calls.
- `app/`: the runtime around the library (settings from the environment, HTTP export
  with `reqwest`, tokio export loops, a trace context shared between tasks, serde
  wire types).
