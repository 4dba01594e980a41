# query_engine

A query engine for a BigQuery data connector: it turns a query request (fields,
aggregates, filters, ordering and relationships over the tables that the metadata
describes) into one SQL `SELECT` that returns the row set as a JSON value, with the
request's strings passed as positional parameters.

The library under `src/` is written in Verus; each public function states its result in
its contract, and the proofs are checked by Verus.

- `types`: the request and response types.
- `metadata`: tables, columns, scalar types and their comparison operators, and native
  queries, whose SQL text is split into text and `{{parameter}}` parts.
- `sql`: the SQL syntax tree, its rendering into text and parameters, helpers that build
  the shapes the engine uses (row sets, JSON wrappers, numbered aliases), and execution
  plans.
- `translation`: from a query request to an execution plan, with the exact errors of a
  request that cannot be translated. `translation::determinism` proves that the plan's
  SQL text and parameters are determined by the metadata and the request, and
  `translation::numbers` decides which requests the translation can take without
  panicking.
- `execution`: the parameters handed to the database and the errors of binding them.

Maps keyed by strings (the tables and native queries of the metadata, the relationships
of a request, a relationship's column mapping, the fields and aggregates of a query) are
held as vectors of `(key, value)` pairs, looked up by the first pair with the key; a
column mapping is required to list its keys in increasing order, as a sorted map would.

`app/` is the HTTP server around the library: it reads the configuration, answers
`/query`, `/explain` and `/metrics`, and runs the SQL on BigQuery.
