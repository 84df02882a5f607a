# media_resolver_core

A resolver for supported links, verified with Verus. The library owns input
validation, the protocol of each route, response parsing and resource
normalization; the caller performs the HTTP requests and hands back the
responses, with each body also read as the public route's response record
(which app/ reads with serde).

## Layout

- `src/` — the verified library.
  - `source.rs`: recognition of links and source keys.
  - `routes/` and `schema/`: the public, managed gateway and embed routes, and
    the documents they read.
  - `registry.rs`, `resolution.rs`, `api.rs`: the routes of a resolution and
    the state machine that walks them.
  - `normalize.rs`, `duration.rs`: variants, containers, image addresses,
    durations.
  - `json.rs`, `weburl.rs`: the JSON tree and the web addresses, as
    `serde_json` and `url` compute them, behind trusted wrappers.
  - `remote.rs`: the standalone single-route adapter.
  - `cli.rs`: the rules of the command-line front end.
- `tests/` — tests of the library.
- `app/` — the command line (HTTP transport, concurrency, output), the
  WebAssembly bridge, the serialisable copies of the library's types, and the
  embed token, which is a floating-point computation.

## Main guarantees

- Every bundle that a resolution resolves is of schema 1, for the requested
  source key, non-empty, and holds only HTTPS addresses in their serialised
  form.
- Routes are tried in a fixed order (public, optional gateway, embed), each
  request keyed by its route's position; every step keeps the session well
  formed and moves one route further, so a resolution ends after at most
  three requests.
- A terminal outcome ends the resolution at once; an exhausted resolution
  fails with the most telling of the recorded failures, whatever their order.
- Failures carry a stable code and its fixed message, never remote text.
