# soroban-testkit

TTL inspection and expiry simulation for tests of Soroban contracts, with the
logic verified by Verus.

- `src/` is the library. `sdk` holds the calls into the Soroban SDK, `env` the
  advance of the ledger, `ttl` the readings and assertions, and `ttl::laws` what
  holds of them together, also on the model of a host in `ttl::world`. `text`
  and `error` render the reports.
- `app/` is the face for tests: it takes keys of any storable type, catches the
  panics of closures, and panics where an assertion does not hold.
- `tests/` runs the library on real SDK environments and on given readings.
