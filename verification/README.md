# engram

A memory store for AI agents: decisions, tasks, file summaries and work
sessions kept in a local SQLite database (`.engram/memory.db`), rendered as
role- and level-filtered markdown.

- `src/` is the library, verified with Verus: the models, the row encoding and
  decoding of the store, the transcript of every request the store sends to
  SQLite (which SQL, which parameters, what each reply is made into; each SQL
  wrapper hands back a ghost record of what it passed to `rusqlite`, and the
  transcript is built from those records), the context renderer, the texts of every command and
  MCP tool, and the laws they keep. `src/external.rs` holds every trusted item
  (the calls into `chrono`, `uuid`, `serde_json`, `sha2` and `rusqlite`).
- `app/` is the `engram` program: argument parsing (clap), files and the
  terminal, JSON export files (serde), shell completions and the MCP server
  over stdio (rmcp, tokio).
- `tests/` runs the library against an in-memory database.
