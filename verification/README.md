# rolling_logger

A rolling file logger whose decision logic is verified with Verus.

- `src/` is the verified library: log and archive file names, reading a
  file's date back from its name, the archiving rule, the choice of files to
  archive and of archives to remove, the rotation state machine, the
  archiver pool, level parsing and line formatting for the `log` and `slog`
  front ends, and the configuration.
- `app/` is the plain Rust around it: the file I/O, gzip compression,
  threads, and the `tracing`, `log` and `slog` integrations.
- `tests/` exercises the library on concrete values.
