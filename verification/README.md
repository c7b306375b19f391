# goose-context

A three-tier context store for coding agents on PostgreSQL: a codebase graph (Apache AGE),
embeddings (pgvector) and relational tables.

The library under `src/` is written in Verus. It holds what the store decides and computes,
with contracts that are proved:

- `scanner`: which files of a repository are kept, what each file is, the dependencies that
  manifests declare, the teams that own the code, the chunks that are embedded;
- `db`: the statements that are sent to the database, the migrations that are pending, and
  what the answers mean;
- `hydrator`: the context that is fetched before an agent runs, ranked, bundled and written
  as a prompt;
- `mcp_server`: the tools of the MCP server, what each call asks, and how it is answered;
- `embedding`: where models are, what an embedding API is asked, how it answers;
- `models`: the entities of the graph and the words of the audit trail;
- `text`, `number`, `path`, `score`, `json`, `lists`, `ordering`: what the others are built on.

Floating point numbers are carried as their bits (`score`), JSON values as their text
(`json`), identifiers as 128-bit integers and moments as microseconds.

What a few outside functions do is taken on trust: each stands in a small wrapper whose
comment says what is claimed of it (`serde_json` in `json`, `regex` in `scanner::dep_parser`,
`uuid` and `chrono` in `db`, `dirs` in `embedding::local`, and a handful of
functions of the standard library).

`app/` is ordinary Rust around the library: connections, files, embedding models in floating
point, and the server's protocol. `tests/` runs the library.
