# auth_service

The authentication and authorization service of a trading platform, as a
verified library: tokens and their claims, sessions, role- and
attribute-based authorization, WebAuthn ceremonies, replay protection,
revocation, key rotation, risk rules, audit event kinds, the API gateway's
request handling decisions, and an in-memory event journal.

- `src/` is the library. Every function there is verified by Verus against
  its `requires`/`ensures`; calls into outside crates (uuid, chrono, base64,
  sha2, ring, p256, p384, rsa, ciborium, dashmap, rand) go through small trusted
  wrappers whose contracts say what those crates document.
  Functions that depend on the time take it as a parameter (`..._at`);
  the versions without the suffix read the clock.
- `app/` is ordinary Rust around it: async plumbing and locks, JSON forms
  of the library's values, logging, the WebSocket loop, token issuing and
  checking with a signer, and the risk arithmetic on floating-point scores.
- `tests/` exercises the library with the real outside crates.
