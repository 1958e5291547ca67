# aicacia_db

The verified core of a small SQL database, written in Verus.

- `src/` is the library. Every function in it is verified: its contract
  states what it returns or changes, and the laws that tie functions together
  (codec round trips, the orders of bytes, strings, values and documents,
  read-your-write on the in-memory trees, transaction semantics) are proved as
  public proof functions.
- The storage engine's side of SQL (`engine_ddl`, `engine_statement`,
  `engine_joins`, `engine_predicates`, `engine_dml`, `engine_update`,
  `engine_insert`, `engine_select`, `engine_query`): column types,
  `CREATE TABLE` with its UUID primary key, `DROP`, the single-statement
  parse with sqlparser's generic dialect, the joins of a FROM clause, `WHERE`
  conditions, values for rows, `RETURNING` lists, `SELECT` with its
  projection, aggregates, `GROUP BY`, `ORDER BY` and `LIMIT`, `INSERT`,
  `DELETE` and `UPDATE`, `HAVING`, and `parse_and_translate` from SQL text.
  Column references, literals and subqueries are read by functions that the
  caller supplies; the library decides what is built from what they give.
- `app/` is the host side: the SQL parser front end (sqlparser), the
  asynchronous translator interface, serde/postcard encodings, the redb table
  handle, float formatting and the sync transport.
- `tests/` runs the library on concrete inputs, including the SQL translation
  scenarios parsed through sqlparser.

Floats are held by their IEEE-754 bit patterns; their comparisons and the
rounding of integers to doubles are computed on those bits.
