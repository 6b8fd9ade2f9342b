# microsandbox_secrets

Secrets of a sandbox, with proofs: the opaque version tokens that a store issues, the
conversions between a sandbox's configuration and its wire form, the listing and rotation of
secrets through a cloud API, and the TCP proxy that carries them, including the SOCKS
handshakes and the peek at a TLS ClientHello.

- `src/` is the library. It is verified with Verus and does no I/O: where a step of the work
  is I/O, the library says what to do next and takes what came of it.
  - `secret/version.rs`: tokens, and the permutation behind them.
  - `secret/domain.rs`, `secret/cloud.rs`: configurations and their wire twins.
  - `secret/rotation.rs`, `secret/builder.rs`: requests, results and their renderings, in
    which a secret's value never shows.
  - `secret/backend.rs`, `secret/flow.rs`: listing, and one rotation from request to outcome.
  - `proxy/`: addresses, the byte reader, the handshakes, tunnels, the peek, the task of one
    connection, and what holds of every run of it (`laws.rs`).
- `app/` is the I/O around it: sockets, channels, HTTP and JSON.
- `tests/` runs the library on concrete values.

What is relied on without proof is marked in the source, each with the function that it
speaks of: `bytes::Bytes` (`proxy/chunk.rs`), `zeroize::Zeroizing` (`secret/zeroed.rs`), and
three functions of the standard library's texts (`text.rs`).
