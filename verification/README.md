# pingora_core

PROXY protocol headers and TLS connector configuration, verified with
[Verus](https://github.com/verus-lang/verus).

- `src/proxy_protocol/`: decoding a header (`wire`), turning it into a
  `ProxyProtocolHeader` (`parse`, `header`), reading one off a stream
  (`reader`), and what holds of all of these (`laws`).
- `src/connectors/`: the s2n-tls configuration of a connector and of a
  connection to one peer, and what holds of it (`laws`).
- `src/octets.rs`, `src/socket.rs`, `src/error.rs`: bytes, addresses and kinds
  of errors.
- `app/`: streams, files and handshakes around the library.
