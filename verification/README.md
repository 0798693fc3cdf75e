# protest

The core of a small HTTP/3 framework, verified with Verus.

`src/` is the library. Every function in it carries a contract that Verus
proves:

- `http`: status codes, methods, the `Cache-Control` and `Accept-Encoding`
  headers, request and response header sets, and a name-to-value header map.
- `request`: requests, building them field by field, reading them from the
  header fields that open a stream, route path patterns, and request bodies.
- `response`: responses and the header fields that open a response stream.
- `server`: the per-connection stream manager, a state machine from
  connection events to steps, with the laws every run of it keeps
  (`server::laws`), and route lookup.
- `service`: the decisions behind a service's generated routes (path
  parameters, handler arguments).
- `types`, `error`: the error types and JSON bodies.
- `text`: the text and number handling the rest is built on.

Calls into `mime`, `serde_json` and `std` functions that `vstd` does not
describe go through small trusted wrappers, each with a doc comment saying
what it claims.

`app/` holds what the library does not: the QUIC server and connection tasks
(over `tokio-quiche`), streamed bodies, serde forms of the library's types,
encoding weights as floats, and the expansion of the `#[service]` attribute.

`tests/` exercises the library from outside.
