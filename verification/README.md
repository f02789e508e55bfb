# ghostteam

A local-first multi-agent coordination library, verified with Verus.

Agents join a workspace under a role and a model backend, exchange
messages, and hand tasks to each other; every step of a task is kept in its
history. The library also covers the HTTP API's answers, the API-key gate,
the Telegram command hub, the KasperKonnect mirroring ids and the CLI.

Layout:

- `src/db.rs` — the workspace: its tables, their orders and keys, and every
  change the program makes to them.
- `src/agent.rs`, `src/tasks.rs` — joining, messaging, the inbox loop and
  the task lifecycle.
- `src/api/` — what each HTTP route answers; `src/api/auth.rs` the key gate.
- `src/cli.rs` — the commands and what they print.
- `src/telegram/` — command parsing, chunking and the bridge's replies.
- `src/konnect.rs`, `src/sdk.rs`, `src/model/`, `src/paths.rs`,
  `src/roles.rs` — the daemon mirror, the API client's addressing, the
  model backends' settings, and the workspace's files.
- `src/laws.rs` — properties that span several calls.
- `app/` — the program around the library: SQLite, the axum server, the
  Telegram and KasperKonnect HTTP clients, the model runtimes.
