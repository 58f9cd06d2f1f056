# HubFlow

A decentralised hierarchy of **Knots** that exchange prioritised, TTL-bounded
packets. Hubs route; Class Knots hold property schemas; Object Knots hold
property state; Action Knots run logic engines. The whole topology is saved
in a single SQLite workspace file (`.hflow`) and exposed to a visual editor
over HTTP and WebSocket.

## Layout

- `src/` — the library, verified with Verus. Every routing decision, object
  operation, class check, registry change, workspace row mapping and API
  decision is a function with a contract over a mathematical model
  (`Seq`, `Map`, views of the data types). Public `law_*` proof functions
  state properties that span several operations.
  - `knot.rs` — Knots, the routing rules and what each role does with a
    delivered packet (returned as a list of effects for the runtime).
  - `object.rs` — the `get` / `set` / `set_many` / `get_all` operations.
  - `inbox.rs` — the priority inbox (priority first, then arrival order).
  - `class.rs`, `state.rs`, `registry.rs`, `event.rs`, `action.rs`,
    `packet.rs`, `cell.rs` — the core types.
  - `persistence.rs` — rows of the `.hflow` tables and back.
  - `api.rs` — validation, registry changes and JSON-RPC envelopes of the
    editor API.
  - `json.rs`, `assoc.rs`, `text.rs`, `ids.rs` — JSON values, an ordered
    map with distinct keys, text output, and UUID identities.
- `app/` — the runtime around the library: tokio tasks and inboxes, the
  SQLite store, the axum server and the demo program.
- `tests/` — tests of the library.
