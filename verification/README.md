# minimal_logger

The rules of a minimal-resource logger, verified with Verus: settings and their
bounds, the `RUST_LOG*` environment variables, log-line templates, target filters, and
what a running logger does on records, on rotation and on new settings.

- `src/` is the library. It decides and computes; it opens no file, starts no thread and
  writes no byte.
  - `builder`, `config`, `env`: settings, where they come from and how they combine
  - `format`, `clock`, `record`, `level`: how a record becomes a log line
  - `logger`: the running logger as a state machine
  - `native`, `text`: text for operating systems, and character sequences
  - `laws`: what holds of all of this together
- `app/` is the logger for the `log` facade around the library: files, the flush thread,
  the rotation signal and standard error.
- `tests/` runs the library on given values.
