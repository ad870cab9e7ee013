# codex-threads

Indexes, searches and reads Codex session logs (`~/.codex/sessions/**/*.jsonl`)
through a local SQLite index.

- `src/` is the verified library: session parsing, search planning and
  ranking, the SQL text of every search, sync planning (scope, preflight,
  budget checkpoints, cooldown, cleanup), the sync lock, the health check and
  the app-thread restore plan. Every function carries a contract that Verus
  proves; calls into `serde_json` and `time` go through small trusted
  wrappers whose contracts are documented where they stand.
- `app/` is the command line around it: argument parsing, the SQLite store,
  file walking and state files, and JSON and text output.
- `tests/` exercises the library on concrete values.
