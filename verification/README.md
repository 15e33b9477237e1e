# beacon

The decision logic of Beacon, a conservative manager for a development toolchain, written in
Verus and proved against its contracts.

- `src/` is the library. `providers/` holds the tool adapters and install managers: how a
  version is read, which manager claims an installation, what a snapshot records, which latest
  version a manager reports and which update command it plans, and how an update is verified.
  `upgrade.rs` selects what may be upgraded, `orchestrator.rs` stops a run at its first
  failure, `config.rs` selects, migrates and saves the configuration, `store.rs` plans the
  history database's migrations, `agent_skills/` decides which Agent Skills may be updated and
  how, `redact.rs` and `runner.rs` redact output, and `envelope.rs` shapes machine output.
- `app/` is the `beacon` command around the library: arguments, files, the SQLite database,
  child processes and terminal output.
- `tests/` runs the library on concrete values.
