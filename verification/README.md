# DDBCore

An engine-agnostic database abstraction layer: schema reflection, streaming
reads, bulk writes and DDL, behind one interface per engine. The rules are
verified with Verus; what talks to a server stands around them.

```
src/            the verified library
  types.rs        the canonical type categories
  schema.rs       the canonical schema model
  value.rs        cell values and rows; scalar.rs, the kinds that take more
  adapter.rs      connection settings, dialects, definitions, reading options
  mysql/          MySQL and MariaDB: type strings, DDL, reading, writing, reflection
  postgres/       PostgreSQL: type strings, COPY text, reading, reflection
  testkit/        what the contract of an adapter asks, and settings for test databases
  text.rs, number.rs, case.rs, native_type.rs
                  texts and numbers
tests/          tests of the library on concrete values
app/            connections over sqlx, serializable copies of the model, contract tests
```

Each public function states what it returns. What holds across functions is
proved beside them as `lemma_...`:

- quoted identifiers read back, and qualified names do not collide (`adapter.rs`);
- neighbouring key ranges share no key and leave none out (`adapter.rs`);
- equality of values is an equivalence, on which a NaN equals itself, and equal
  values are of one kind (`value.rs`);
- a MySQL type that was written reads back as its category, and a rendered
  column keeps its name, type, nullability, generated key and default
  (`mysql/laws.rs`);
- a type without a category keeps its own name (`types.rs` of either engine);
- bulk data reads back cell for cell, array literals element for element, and
  no two values of a kind are written alike (`postgres/laws.rs`,
  `postgres/lossless.rs`);
- chunks and batches together are all rows, in order and within their limits
  (`postgres/laws.rs`, `mysql/bulk.rs`);
- a created table is reflected as it was defined, a rendered table recreates
  itself, and written rows read back, given what the server reports and hands
  back in between (`mysql/round_trip.rs`, `postgres/round_trip.rs`);
- reading by cursor reads every row, and every column that is read as it is has
  a decoder (`postgres/stream.rs`);
- the expression of a check constraint comes back from its definition
  (`postgres/reflect.rs`);
- no number changes on its way off the wire (`mysql/query.rs`).
