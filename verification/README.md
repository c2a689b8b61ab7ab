# Delayed events

The rules of delayed events on a chat server, written in Rust and proved with
Verus: scheduling, restarting, cancelling and sending events, the policy that an
event has to meet when it is sent, and the answers to the requests of clients.

- `src/` is the library. Each function takes what was read from the tables and
  what the clock said, and gives its result with the writes that are to be
  carried out. `src/store.rs` models the tables, and `src/laws.rs`,
  `src/policy_laws.rs` and `src/request_laws.rs` prove what holds of the
  operations together. `src/history.rs` does so for any number of operations,
  however they are interleaved.
- The functions that call other crates stand in `src/content.rs`, `src/json.rs`,
  `src/text.rs`, `src/query.rs`, `src/requests.rs` and `src/delay_id.rs`. Their
  contracts are believed, and each says what it claims.
- `tests/` runs the library on examples.
- `app/` is the code around it: storage, locks, the worker in the background and
  the HTTP routes.
