# http_relay

A small HTTP relay (reverse proxy). A request's host decides, through a list of
routing rules, which upstream server the request is relayed to; requests that no
rule takes are answered `404 Not Found`.

- `src/` is the verified library: the text primitives (splitting on whitespace,
  trimming, integer reading and writing), header-field parsing, request and
  response heads, routing rules and the server configuration, the text sent
  upstream, and the per-request decision of the worker. Contracts are stated
  over mathematical views (`Seq<char>` for strings), and the laws that tie the
  functions together are proof functions named `law_*`.
- `app/main.rs` is the program: sockets, reading lines, and copying bodies.
- `tests/` runs the library on concrete values.
