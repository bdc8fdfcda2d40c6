# DevTerminal

A keyboard-driven terminal workspace manager: one interface over `git`, `gh`,
`docker`, `kubectl`, the package manager, `journalctl`/systemd, `ssh` and the
system's processes, disks and network.

The crate is split in two:

- `src/` — the library, each function proved against its contract: the shared list (selection and
  live filter), the main loop's state (module switching, confirmation
  dialogs, prompts, output panes), every module's parsing of its tool's
  output and its key bindings, the commands each action runs, the binary
  cache and the choice of clipboard and notification helpers.
- `app/` — the program: the terminal loop, drawing with ratatui, spawning
  processes, reading files and the environment, sampling the system with
  sysinfo, and parsing config.toml.

Each module follows the same shape: `refresh_cmd` says what to run,
`apply_output` takes what it printed, and `on_key` answers a key with an
action (run, confirm, prompt, show, run full-screen) that the loop carries out.

`tests/` holds the tests (`cargo test`).
