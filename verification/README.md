# zorv

A TLS tunnel for exposing intranet TCP/UDP services, with its protocol and
server logic verified in Verus.

## Layout

- `src/` — the verified library.
  - `common/` — byte and text helpers, errors, HMAC and timestamps, random
    values, and the `DashMap` tables seen as maps.
  - `protocol/` — the frame codec (magic, CRC32), the handshake, heartbeats,
    stream multiplexing and the deterministic fuzz harness.
  - `server/` — handshake admission and IP allowlists, session bookkeeping,
    traffic accounting and reports, the audit ring buffer, proxy-rule
    planning, webhook requests, and the admin console's logic (request heads,
    routing, responses, escaping, password hashing, login guard, captcha).
  - `client/` — the client's decisions on handshake replies and frames.
- `app/` — the `zorv` binary: sockets, TLS, async tasks, configuration files
  and JSON, which carry out what the library decides.
- `tests/` — tests of the library.

Each public function states its result in its contract; the laws of the
library (codec round trips, login lockout and its expiry, single-use
captchas, reconnect races, reload plans and others) are proof functions next
to the code they speak of.
