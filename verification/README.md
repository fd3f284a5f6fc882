# dsh_desktop

The logic of the DeepSeek Harness desktop shell, verified with Verus.

- `src/` — the library. `text` (character search, decimal text, `u16`
  parsing), `ports` (port setting, DSH page probe, free-port scan), `paths`
  (path joining, `PATH` candidates, the npx cache), `resolve` (choosing the
  launch command and its command lines), `version` (registry responses,
  `--version` output, update text), `manager` (the server lifecycle as a state
  machine: one event in, one action out).
- `tests/` — tests of the library.
- `app/` — the Tauri shell and all I/O: sockets, file system, environment,
  processes and signals. It performs the actions the library asks for and
  reports their results back.
