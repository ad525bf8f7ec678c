# httpz

Code once, support every Rust webserver: one HTTP endpoint, mounted on Axum,
Actix Web, AWS Lambda, Vercel or Cloudflare Workers, with websocket support.

## Layout

- `src/` is the library, verified with Verus.
  - `server.rs`: the servers and their names.
  - `request.rs`: the request model (method, uri, version, headers, body,
    server), its cookies and its query parameters.
  - `headers.rs`, `cookies.rs`: the `http` header map and the `cookie` jar,
    used through small trusted wrappers whose contracts name what they hold.
  - `endpoint.rs`: `Endpoint` and `GenericEndpoint`.
  - `ws/`: websocket messages and frames, the `Sec-WebSocket-Accept` key,
    and the upgrade handshake, which decides the answer to an upgrade request.
  - `servers/`: the method check of the adapters and the uri rewriting of
    Tauri custom protocols.
  - `laws.rs`: properties that hold across these functions.
- `app/` is ordinary Rust: the async traits (`HttpEndpoint`, `EndpointFn`,
  `HttpResponse`), the websocket connection on tokio, and the adapters for
  each framework, which convert their requests and responses. There is no
  Tauri adapter; the uri rewriting that one needs is part of the library
  (`servers::tauri_request_uri`).
- `tests/` runs the library on concrete values.
