# axon

The logic of a local coding assistant, written in Verus: conversations that fit a context
window, the loop in which a model calls tools, the daemon that keeps a model loaded, a swarm of
scheduled agents, workflows that a model plans, skills, and the dashboard for all of it.

- `src/` is the library. Every function states in its contract what it returns or changes, and
  is proved. Functions named `law_…` state what holds across functions.
- `app/` is the program around it: terminal, files, sockets, database, models, and the page that
  runs in the browser (`app/frontend/`). It decides nothing that the library can decide.
- `tests/` runs the library.

JSON, markdown and RFC 3339 times are read by `serde_json`, `pulldown-cmark` and `chrono`. What
the proofs take from them stands beside the functions that call them, in `src/json.rs`,
`src/dashboard/page.rs`, `src/time.rs` and `src/workflow/executor.rs`.
