# formualizer_workbook

A workbook over a calculation engine, verified with Verus.

- `src/` is the library. A workbook is described by the calls that it makes to its
  engine, in order, and by what it makes of the answers: `host.rs` records the calls, the
  `*_run` functions say where an edit leads, and the `laws_*` modules prove what holds of
  every edit. What is read back of an edit is proved over `book.rs`, which says what an
  engine holds that keeps what it is given.
- `tests/` runs the library over a small engine and with the outside crates.
- `app/` reads files and JSON, converts values of the calendar and the parser, and calls
  code that may panic.
