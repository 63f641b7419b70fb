# hyper_client_sockets

Hex-encoded socket URIs for hyper clients, verified with Verus.

- `src/` is the verified library: the `unix://`, `fc://` and `vsock://` URI
  encodings and their decoding (`uri`), hex and decimal text (`hexcode`,
  `decimal`), the Firecracker tunnel handshake and the retry and connect
  decisions of VSOCK I/O (`utils`). Each encoder is proved to be undone by its
  decoder.
- `app/` holds the I/O around it: the `Backend` trait, the Tokio and
  `async-io` connections, the hyper-util connectors and the extension traits on
  `http::Uri` that convert std's paths and socket addresses.
- `tests/` runs the library on concrete values.
