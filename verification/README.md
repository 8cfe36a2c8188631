# larc

Verified vocabulary and decision logic for agentic delivery pipelines,
written in Verus.

## Layout

- `src/` — the verified library.
  - `loops` — convergence results of agentic loops and the loop traits.
  - `lightsquad` — the structured delivery protocol: archetypes, gate
    dimensions, critic reviews, build events, evidence bundles, sanitized
    compiler feedback (escape stripping, UTF-8-safe truncation, framing and
    parsing of `cargo --message-format=json` output into a trace), plan
    validation, tasks and context tiers, non-empty test assertion lists.
  - `soulvault` — research reports, retrieval-mode selection and the vault
    configuration.
  - `keys` — the API-key service: key hashing (HMAC-SHA256, hex), key
    generation, Argon2 password hashing, key validation against stored
    candidates, request checks and the service configuration.
  - `proxy` — configuration of the MCP proxy and the credentials it presents.
  - `text`, `json` — character-level string primitives, and the JSON model
    the parsers read with the trusted parse of one JSON document into it.
- `tests/` — tests of the library, run against the real outside crates.
- `app/` — the unverified shell: environment reading, SQLite storage, token
  signing, the HTTP service, the MCP proxy, serde wire formats of the
  library's types, and the parts that work on floating-point numbers or
  async traits.

Each public function of `src/` states its result in its `ensures` clause;
where a result rests on chance (a random key, a salted password hash), the
clause states what holds of every outcome and when the call succeeds. The
laws that relate several functions are public proof functions beside them,
among them that every diagnostic message fits the 512-byte limit and that
the diagnostics of two outputs joined by a newline are those of the first
followed by those of the second.
The calls into outside crates go through a few trusted wrappers, each with a
doc comment saying what it assumes of the crate it calls.
