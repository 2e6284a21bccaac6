# cue_daemon

The decisions of `cued`, the background daemon of cue-shell, as a verified library: what a request
starts with and how it is answered, when an operation is routed, replayed or refused, how a restart
is armed, taken back and completed, which scopes may be stored, what a command is blocked or wrapped
by, and what each command of the program does next.

- `src/` is the library. Each function states in its contract what it returns and what it changes;
  the laws that span functions are public proof functions beside them.
- `app/` does what touches the world: sockets, files, processes, signals, the database and the
  command line. It hands the library plain values and carries out what the library decides.
- `tests/` runs the library on concrete values, with an in-memory database where rows matter.

The library calls `blake3`, `toml`, `uuid`, `serde_json` and `tracing-subscriber`. What it takes for
granted of them, and of a few functions of the standard library, is stated at the functions marked
`external_body` and at one `assume_specification`.
