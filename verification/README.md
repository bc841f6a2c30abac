# praetore_core

Authorization and governance primitives for autonomous agents, written in
Verus: agent identities, delegated authorities with validity windows and
constraints, actions, policies whose rules combine under the precedence
DENY > REQUIRE_APPROVAL > ALLOW, an engine that ties them together, and
evidence that binds a request and its decision under a SHA-256 context hash.

Layout:

- `src/` — the verified library. Each module states its types' models
  (`View`), the checks it performs as spec functions returning the first
  error met, and the laws of the pipeline as proof functions (`law_*`).
  Calls into `uuid`, `time`, `sha2`, `hex` and `serde_json` go through
  small trusted wrappers in `ids.rs`, `timestamp.rs`, `digest.rs`,
  `action.rs` and `canonical.rs`.
- `src/canonical.rs` writes the context of a decision as the compact JSON
  text `serde_json` produces for it (sorted keys); the context hash is the
  lower-case hex SHA-256 digest of that text. `src/framing.rs` and
  `src/integrity.rs` prove that the text determines each hashed component,
  so tampering that still verifies needs a SHA-256 collision.
- `tests/` — the tests, run against the compiled library.
- `app/` — serde representations of the library's types, the error's
  display messages, and conversions from `Uuid`, `OffsetDateTime` and
  `serde_json::Value`.

Identifiers (UUIDs) are held as their big-endian 128-bit values, instants as
nanoseconds since the Unix epoch, and action parameters as compact JSON text
(`Action::new` accepts only JSON and stores it in that form).
