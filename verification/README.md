# base-idp

A Rust SDK for Base identity integration in backend services and gateways, with its
logic verified by Verus.

- `src/` is the verified library: configuration (`types`), scope lists (`scopes`),
  splitting text into spans (`spans`), form encoding and URL building (`urlenc`,
  `authorize`), the decisions of the client (`client`: registration, caches, token
  forms), pre-authentication encoding (`pae`), PASETO `v4.public` framing, keys and
  signatures (`paseto`), claim checks (`claims`) and the whole token verdict (`verify`).
  Text helpers live in `text`, errors in `error`.
- `app/` holds what Verus does not see: reading the environment, the asynchronous HTTP
  client with its locks and clock, JSON decoding into serde types, and `Display` for errors.
- `tests/` exercises the library on concrete values.
