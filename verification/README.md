# createos

A client library for the CreateOS Sandbox API, written in Verus. The library plans
every request (method, endpoint, query, JSON body, authentication and transport
options), decides retries and backoff, walks pages, decodes JSend envelopes, failed
responses and streaming output, and applies replies to a sandbox handle. Each of
these steps carries a contract that Verus proves.

## Layout

- `src/` — the verified library.
  - `transport.rs`: methods, retry plans and backoff, credentials, endpoint URLs, JSend.
  - `client.rs`: client configuration, account-level endpoints, pagination, readiness.
  - `instance.rs`: one sandbox: lifecycle, commands, port probes, ingress URLs, waits.
  - `services.rs`: files, processes, templates, networks, disks and the desktop.
  - `requests.rs`, `options.rs`, `models.rs`, `wire.rs`: request bodies and their JSON
    form, per-operation options, response projections and wire strings.
  - `stream.rs`: line buffering and the decoding of command, process and log streams.
  - `error.rs`: errors, failed-response decoding and descriptions.
  - `json.rs`, `text.rs`, `duration.rs`: JSON values, text helpers and time spans.
  - `laws.rs`: properties of the library as a whole.
- `tests/` — tests of the library on concrete values.
- `app/` — an async client over `reqwest` and `tokio` that sends the planned
  requests, runs the retry, paging, polling and streaming loops the library decides,
  and decodes response bodies with `serde`.
