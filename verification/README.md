# datafusion_postgres

The rules of a Postgres server in front of a query engine, proved with Verus.

- `src/sql*`: the tokens and the syntax trees of statements, the rules that rewrite them,
  the statements of clients that are replaced as a whole, and the parser around them.
- `src/params.rs`, `src/wire.rs`, `src/coerce.rs`, `src/planner.rs`: the types and values of
  the parameters of prepared statements.
- `src/encoder.rs`, `src/datatypes.rs`, `src/geometry.rs`, `src/schema.rs`, `src/scalar.rs`:
  the types, columns and rows of results.
- `src/pg_catalog*`: the tables, functions, oids and types of the `pg_catalog` schema.
- `src/pgvector.rs`, `src/sql/vector_insert.rs`: vectors in operators and insertions.
- `src/handlers.rs`: the steps in which queries are answered.
- `src/errors.rs`, `src/text.rs`: errors, and functions on text.

Functions that are marked as external call other crates; their contracts are believed. All
others are proved. Properties that span functions are the proof functions whose names start
with `law_`.

`app/` is the server around the library: it reads from clients, asks the engine, and writes
the answers. `tests/` runs the library.
