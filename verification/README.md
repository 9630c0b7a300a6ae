# Azure Functions Web Adapter

Runs an ordinary HTTP web application behind the Azure Functions host: the adapter
registers one catch-all HTTP function with the host, turns each invocation into an
HTTP request for the application, and turns the application's response back into an
invocation response. It can also run as a reverse proxy (custom-handler mode) and as a
placeholder proxy that starts the adapter on specialization.

## Layout

- `src/` — the library, verified with Verus: what the adapter decides and builds, with
  its contracts (including which request headers and target URLs the HTTP crate
  accepts):
  - `config.rs`: settings from the environment, healthy status ranges, startup arguments;
  - `http_forwarder.rs`: invocation → HTTP request, HTTP response → invocation response;
  - `http_proxy.rs`: target URL, forwarded headers and 502 answers of the reverse proxy;
  - `grpc_handler.rs`: the worker's answer to each message from the host;
  - `proxy.rs`: the placeholder proxy's state machine and the child adapter's steps;
  - `readiness.rs`: the readiness check's steps, probe request and response reading;
  - `process.rs`, `modes.rs`: shell-style startup command splitting and run-mode selection;
  - `messages.rs`, `text.rs`: the message types and the text functions the rest uses.
- `tests/` — tests of the library on concrete values.
- `app/` — the program: environment and command line, sockets, the HTTP client and
  server, the child process, and the message loops, each deciding through the library.

Calls into `sha2`, `hex`, `serde_json`, `hyper` and the parts of `std` that have no
specification in `vstd` are made through small trusted wrappers whose contracts are
stated next to them.
