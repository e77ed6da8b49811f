# xy_sign_relay

A relay that signs requests to the Xingyi payment gateway and verifies the signatures on
its notices, with the signing and verification logic written in Verus and proved against
its contracts.

- `src/` is the verified library: the parameter map kept in name order (`params`, `order`),
  the canonical `name=value&...` text and verification (`verification`), signing
  (`signer`), PEM handling of the configured key (`pem`), the configuration (`config`),
  the answers of the HTTP endpoints (`handler`), paging and access of the monitor pages
  (`monitor`), the log queries (`database`), the text helpers they share (`text`), byte
  strings as big-endian integers (`octets`) and the PKCS#1 v1.5 block formats
  (`padding`).
  `crypto` holds the calls into `sha2`, `base64`, `rsa` and `rand`, with the contracts
  that the rest of the library relies on.
- `app/` is the HTTP server (axum), the SQLite log (rusqlite), the Tera templates and
  reading the environment.
- `tests/` runs the library on concrete values.
