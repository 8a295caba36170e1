# artemis

The decision logic of a terminal coding agent's tool layer, verified with
Verus.

`src/` is the verified library:

- `commands` — the checks applied to shell command text (the executor's
  guardrail and the shell service's check), and reading `<tool> <job_id>`.
- `tool_executor` — read-before-edit rules, path normalization, routing of
  `shell` and `shell_exec` calls, and which long outputs go to files.
- `jobs` — the table of background shell jobs (ids, output, exit, kill).
- `executor` — the spawn plan of a command and its captured output.
- `shell_service` — the shell service's replies (ANSI stripping).
- `prompt`, `state`, `banner` — the interactive prompt, UI state and
  start-up banner text.
- `config_paths` — where the configuration files are.
- `paths`, `text`, `shell` — Unix path joining, character-level text
  helpers, and the command result types.

`app/` runs processes, reads files and the environment, and talks to the
terminal around these decisions. `tests/` exercises the library.
