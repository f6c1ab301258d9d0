# revent

An event server: clients open sessions, register the queries they answer,
ask each other queries (routed round robin among the clients that answer
them, with timeouts), and register source events that are stored with a
monotonic clock and broadcast to every connected client. A REST API lists
the connected clients.

## Layout

- `src/` — the library, verified with Verus. It holds the identifiers and
  their checks, the client selection, the query routing table and the
  waiting requests, the session state machine (`state.rs`: from a state and
  a client message to the next state and what to do), the paging of the
  REST answers, the settings checks, the conversion of session requests, the
  decisions of a session (`session.rs`) and the shape of the messages sent
  back. `laws.rs` states and proves the
  properties that hold across operations.
- `tests/` — tests of the library on concrete values.
- `app/` — the program around the library: settings from the environment,
  telemetry, the SQLite event store, the node that performs what the state
  decides (sending to sessions, saving events, the heartbeat and expiry
  loop), the session loop that a session transport runs and the HTTP server.
