# daemon8

A local observation daemon's core, verified with Verus: the observation
types and filters, the stores' queries and bookkeeping decisions, the
client's formatting, the lens ring buffer, error fingerprints, agent
awareness and the install-backup planner.

- `src/` is the verified library. `types/` holds the observation
  vocabulary and filters; `daemon/` the daemon's in-memory and SQLite store
  logic, client formatting, setup and cleanup rules and the channel relay;
  `store/` the agent-memory store's statements, merges, deduplication,
  awareness sync decisions (conflicts, create or change, edges, traversal),
  catalog, lens and fingerprints; `xtask.rs` the
  backup-install planner. `text.rs` and `json.rs` are the string and JSON
  helpers the rest is written over.
- `app/` is the `daemon8` command line around it: HTTP, files, the terminal,
  SQLite and the serde copies of the library's types. The agent-memory
  store's statements and decisions live in `src/store/`, but no database
  client for them is wired up here: `app/` carries only the SQLite
  observation store.
- `tests/` exercises the library on concrete values.
