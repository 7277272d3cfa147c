# rustmem

Long-term memory for AI agents: facts are extracted from text by a language
model, deduplicated against similar memories, stored in SQLite with their
embeddings, archived when updated or deleted, and linked in a small graph of
entity relations.

- `src/` is the verified library (Verus): configuration, the prompts and the
  reading of every model reply, the SQL statements and the reading of rows,
  the graph's conflict rule, the add pipeline's bookkeeping (gathering similar
  memories, short ids for the model and their mapping back, the plan of
  actions), and the text and JSON helpers they rest on. SQLite is reached
  through `rusqlite`, JSON through `serde_json`, both behind trusted wrappers
  whose contracts say what is assumed.
- `app/` is the program around it: the command line, configuration loading,
  the HTTP calls to the model and the embedding endpoint, the ranking by
  cosine similarity (floating point), the REST server and the MCP server.
- `tests/` runs the library on concrete values.
