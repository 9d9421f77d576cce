# axum-observability

Request correlation and structured terminal access logging for Axum, with its
decision logic specified and proved in Verus.

## Layout

- `src/` is the verified library.
  - `request_id.rs`: the request-ID grammar, native header content, the
    redacted validation errors and the random fallback identifier.
  - `trace_context.rs`: strict W3C `traceparent` and `tracestate` parsing for
    Trace Context Levels 1 and 2.
  - `context.rs`: the accepted trace context, the per-request context and its
    correlation identifier, and static operation identifiers.
  - `middleware.rs`: request-ID selection (caller policy, generator retry and
    fallback), trace-context selection, the one-shot terminal record and its
    level, response-body outcomes, correlation fields and the access record.
  - `json.rs`: JSON values and objects with distinct keys.
  - `formatter.rs`: the JSON line of an event (reserved keys, access records,
    enrichment, Google Cloud `httpRequest` and latency, provider trace fields),
    timestamps and redacted diagnostics.
  - `e2e.rs`: the decisions of the end-to-end consumer server.
  - `text.rs`: byte-level splitting, joining, trimming and ASCII text.
- `app/` is the Axum, Tower and `tracing` integration around the library: the
  middleware service and body observer, the `tracing` layer that writes the
  lines, the request-context extractor, configuration, and the consumer
  server's route.
- `tests/` exercises the library's public functions.

Each public function states its result in `ensures`; the laws that relate
several functions are public proof functions named `law_*`.
