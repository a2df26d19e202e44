# cafe_core

The verified core of the cafe services: a session bus, the agents that run
on it, and the evaluators they call. Every module under `src/` is checked by
Verus against its contracts.

- `chunk`, `text`, `lines`, `codec`, `json_text`: chunks and their JSON
  annotations, text helpers, base64, SHA-256 hex and JSON string literals.
- `bus`: sessions (history, retained transient chunks, subscribers),
  the session registry, subscription filters and the wire protocol's
  decisions.
- `agent_runtime`: session configuration, pipeline steps and their
  triggers, the work queue of a trigger, tool calls in replies and their
  execution, agent files, evaluator schemas.
- `agent_js`: what JavaScript agents are told, and their registry.
- `llm`: prompt assembly, history compaction and the evaluator's state.
- `narration`: EPUB archives (read with the `epub` crate, after a check of
  the root file their container names) assembled into books, and the
  narrator's commands, replies and reading position.
- `binary_store`: chunk files on disk and the store's JWTs (made and checked
  with `jsonwebtoken`).
- `dice`, `demo`, `http_proxy`, `cli`, `services`, `js_manifest`: the
  smaller services' rules.

Calls into outside crates that only compute (base64, SHA-256, regular
expressions, HTML rendering, EPUB and XML reading, JWT signing and decoding,
path operations, random draws) stand in `src/` behind small trusted wrappers whose contracts name
what the crate returns.

`app/` holds the rest: environment variables, files, the clock, TOML and
JSON documents read into the library's types, JavaScript evaluation and
floating-point media. It calls the library for every decision.
