# wenmeng

The protocol core of an HTTP/1.1, HTTP/2 and WebSocket server and client,
written in Verus: every function in `src/` carries a contract that Verus
proves.

- `src/` — the verified library: body framing (chunked coding, compression
  selection), header decisions, HTTP/1 message heads and connection bookkeeping, HTTP/2
  settings, streams and frame scheduling, WebSocket handshakes and states,
  proxy handshakes (HTTP CONNECT, SOCKS5), timeouts and rate budgets, and the
  event-loop decisions of clients and servers (including the order in which
  middlewares see a request and its response).
- `tests/` — tests of the library on concrete values.
- `app/` — ordinary async Rust that drives the library: the webparse body
  adapter, the middleware trait and the request-handling loop, the reading
  side of HTTP/1 connections, TCP/TLS connects and TLS settings, proxy
  connections, timeouts and rate limits, WebSocket options. It does not
  hold complete server or client event loops; those are left to the
  program that uses the library.
