# duga

duga is a coding agent that users talk to over Telegram. This crate holds
its decisions as a library verified with Verus: every executable function in
`src/` carries a contract, and the laws the library keeps are proof
functions beside the code they speak of.

## Layout

- `src/sandbox/` — the workspace (path confinement), the binary allow-list,
  the environment filter, shell sessions (`cd`, `export`, `unset`), output
  capping, and the Docker and capability executors' command lines.
- `src/tools/` — tool errors, the confirmation policy, the dispatcher,
  JSON values and argument schemas (cleaning, compact text, validation
  through the `jsonschema` crate), and erased tools.
- `src/builtin/` — the built-in tools: read, write, edit, search, bash,
  think, delegate, and the skill tools; each states what it decides, apart
  from the file and process I/O it performs.
- `src/runtime/` — frontend events, prompts, skills, memory, providers,
  the summarizer and the calendar arithmetic behind dates.
- `src/telegram/` — authorization, routing and commands, sessions (one run
  per chat), attachments, scheduled events, Markdown to Telegram HTML,
  message chunking, and the progress renderer.
- `src/text.rs`, `src/strmap.rs` — character-level helpers and a string map.
- `tests/` — tests of the library, run against the real outside crates.
- `app/` — the bot binary: configuration, the Telegram poll loop, file and
  network I/O around the library.

Calls into outside crates (`regex`, `glob`, `grep-regex`, `pulldown-cmark`,
`chrono`, `cron`, `dashmap`, `which`, `uuid`, `jsonschema`, `serde_json`)
stand behind small trusted wrappers, each documented with what its contract
claims.
