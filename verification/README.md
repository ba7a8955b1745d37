# xga_commitment

The XGA commitment module for Commit-Boost: it polls XGA relays for
validator registrations, builds and signs commitments for them and sends
them to the relays, and on the PBS side applies each relay's reserved gas
to the bids it receives.

## Layout

- `src/` is the library, verified with Verus. Public functions state their
  results in their contracts, except where a result is only what the clock
  reads (`clock_millis`); the step from a clock reading to a result is a
  function of its own that takes the reading (`timestamp_from_millis`, the
  `_at` functions). Laws that span several calls are public proof functions
  (their names start with `law_`).
- `app/` is the program around it: settings, the network, the clock, the
  webhook server and the PBS handlers (`app/pbs.rs`, `app/relay_queries.rs`).
  It decides nothing itself; each step it takes is a library call.
- `tests/` runs the library on concrete values.

## Keyed state

Reservations per relay, cache entries, circuit breakers per relay, the
registration cache and the per-validator rate limiters are kept in the
library's own tables (`keyed.rs`, `reservations.rs`), backed by a `Vec`
whose invariant is that no key occurs twice and whose view is a `Map`.
The state is owned and changed through `&mut`, so no concurrent map is
needed, and the tables' operations are proved rather than trusted. A
concurrent hash map from another crate would be opaque to Verus: what it
holds could only be given a name per concrete key and value type (the
tables here are generic over their values), and the order in which it
hands out its entries depends on a hasher seeded per process, so that
order could not be named at all, while the reservation report is stated
entry by entry in the table's order.

Per-relay overrides in `ReservedGasConfig` are read from a table, so they
name each relay once (`overrides_distinct`); the laws about configuration
are stated for such overrides.
