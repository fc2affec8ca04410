# tokistamp

UTC date, time and Unix epoch types without timezone handling, and
snowflake-like 64-bit identifiers (`BeakId`) that count 100 ms windows from a
configured epoch. The library is written in Verus: the functions in `src/`
carry contracts that Verus proves, apart from a few small trusted wrappers
around `std` and the `time` crate, whose contracts are stated in their doc
comments.

## Layout

- `src/calendar.rs`: the proleptic Gregorian calendar as spec functions, and
  the day-number conversions (`days_from_civil`, `civil_from_days`) proved
  against it.
- `src/parse.rs`: byte-level parsing of `yyyy-MM-dd`, `HH:mm[:ss[.SSS]]` and
  RFC 3339 UTC texts, with the error kind of each malformed input.
- `src/text.rs`, `src/round_trip.rs`: decimal rendering as `format!` renders
  it, and the laws that each type's text parses back to the value.
- `src/date_time.rs`, `src/date.rs`, `src/time.rs`, `src/duration.rs`,
  `src/timestamp.rs`, `src/datestamp.rs`: the value types, their arithmetic
  and their texts.
- `src/clock.rs`: the few calls into `std::time` that read the clock.
- `src/beakid/`: the identifier layout and its laws, the configuration
  (the RFC 3339 epoch is read by the `time` crate), and the lock-free
  generator.
- `app/`: what cannot be verified: the process-wide generator read from the
  environment, the background updater thread and Tokio task, async retry
  macros, `Display` messages, and serde forms of the types.
- `tests/`: executable tests of the library.

## What is proved

- Parsing is specified byte by byte; formatting is specified character by
  character; for years 0 to 9999 every text that a value prints parses back
  to that value.
- `DateTime` values are always valid calendar dates and times of day
  (a type invariant); the conversion to and from Unix milliseconds is exact
  and round-trips over the whole `i64` range.
- Duration arithmetic on every type is exact and free of overflow; adding and
  then subtracting a duration restores the value.
- Identifier packing and unpacking are inverse for valid parts, identifiers
  are non-negative, sort by window then sequence, and the decisions that
  reconcile virtual time with real time follow the documented rules.
