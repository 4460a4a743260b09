# agent_control

The control protocol between an agent's host and the agent: requests that are answered by
correlated responses, callbacks that the agent invokes, and the stream of messages beside them.

`src/` is the protocol itself, verified with Verus. It reads, writes and waits for nothing: a
caller hands in what it received and does what comes back.

- `query`: the state of a query and its decisions, with `protocol` as their model
- `envelope`, `json`, `encode`: messages, JSON trees, and the crossing to `serde_json`
- `hooks`, `permission`, `interrupt`: what single requests carry and what their answers mean
- `table`, `ident`: tables of handles in a `DashMap`, and identifiers
- `errors`, `model`: errors, and views of results
- `laws`: what holds of the protocol as a whole

`app/` drives a query over an asynchronous transport. `tests/` runs the library on examples.
