# Semantic SQL values, verified

Database-independent SQL values (text, dates, times of day, date-times and
instants), the traits by which Rust types convert to and from them, and the
PostgreSQL side of the bridge, written in Verus with their calendar and
encoding arithmetic proved.

Layout of `src/`:

- `calendar.rs`: the proleptic Gregorian calendar as mathematics: day numbers
  relative to 1970-01-01, their inverse, and the proofs about the era-based
  date algorithm.
- `date_time.rs`: `SqlDate`, `SqlTime`, `SqlDateTime`, `SqlTimestamp` and their
  conversions, with round-trip laws.
- `value.rs`: `SqlType`, `SqlValue` and the conversion error `SqlError`.
- `traits.rs`: `HasSqlType`, `SqlEncode`, `SqlDecode` and their implementations
  for text and options.
- `adapter.rs`: the `DatabaseSqlTypes` driver interface and the `Sql` adapter.
- `postgres.rs`: PostgreSQL's type mapping and binary encoding and decoding of
  semantic values, with the laws that what is written is read back.

`app/` holds the standard-library `Display` and `Error` implementations, which
stand on copies of the library types.
