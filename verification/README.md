# cf-speedtest-core

Payload generation and request handling for an HTTP download speed test,
verified with Verus.

A download is answered with a zstd frame made of RLE blocks that decompresses
to the requested number of zero bytes, so a few hundred bytes stand for
gigabytes of payload.

- `src/frame.rs`: the frame encoder `zeros`, a model of zstd frame decoding
  (RFC 8878, Raw and RLE blocks) and the proofs that every frame decodes to
  the requested zeros, what its length is, and that a larger target never
  gives a shorter frame.
- `src/query.rs`, `src/path.rs`: the size a request names in its query
  (`?bytes=<n>`) or path (`/100MB.test`).
- `src/request.rs`: the server's answer to a request (refusal of clients that
  accept `zstd`, default and cap of the size) and the worker's method filter.
- `src/worker.rs`: the decisions of the worker deployments, from method and URL.
- `src/text.rs`, `src/search.rs`, `src/bytes_le.rs`: decimal parsing,
  ASCII-case comparison, byte search (through `memchr`), little-endian bytes.
- `app/main.rs`: the axum server around the library.
