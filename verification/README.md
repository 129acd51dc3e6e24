# kyc_backend

The verified core of a KYC orchestration backend, written in Verus.

- `src/signature.rs` — server-to-server request signatures (HMAC-SHA256 over
  `timestamp \n METHOD \n path \n body`, URL-safe Base64 without padding), the clock-skew
  window and the body limit, with the verdict of every check stated and its laws proved.
- `src/envsubst.rs` — `$VAR` / `${VAR}` expansion of configuration text.
- `src/config.rs` — the configuration types, their defaults and derived values.
- `src/ids.rs` — prefixed CUID identifiers.
- `src/staff.rs` — pagination, user filters, admin step listing and admin submissions.
- `src/api.rs` — shared handler state and the signature guard as a layer.
- `src/text.rs`, `src/order.rs` — character-level helpers and the string order.
- `app/` — the edge: reading the configuration file, axum/tower middleware, metrics,
  OpenAPI documents.
