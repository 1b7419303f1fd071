# dapr_components

The decision-making core of the Dapr WebAssembly components, written in
Verus and proved against its contracts: how a failure the sidecar reports
maps onto each building block's error, how request paths and queries are
built and percent-encoded, how the inbound app channel routes a request to
an application callback and what it answers for the callback's outcome,
how a CloudEvent envelope is read from the request body, how gRPC
messages are framed, how proto maps, durations, timestamps and wrapper
messages are converted, how the JSON documents exchanged with the sidecar
(conversation, job, reminder and binding bodies, the metadata document)
are written, how the demo's state smoke check proceeds, and when a request to the sidecar is retried.

Layout:

- `src/` — the verified library (one module per concern; `lib.rs` lists them).
- `tests/` — tests of the library on concrete values.
- `app/` — the unverified shell: environment, sending requests through the
  host's HTTP client, JSON (de)serialization with `serde_json`, the
  floating-point protobuf wrappers, and the dispatch of app-channel requests
  to the application's callbacks.

Calls into `urlencoding`, `prost`, `humantime`, `serde_json` and `tonic` that the library
makes stand behind small trusted wrappers whose contracts state what those
crates' sources show.
