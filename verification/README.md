# dxtr_cleaner

A safety-first disk cleaner and application uninstaller for macOS, with the
Windows cache targets alongside. Its lifecycle is **Scan → Plan → Review →
Execute → Report**: the scanner only reports items, a separate planner makes a
reviewable plan, and nothing is moved unless an explicit execution policy allows
it under pinned roots, re-checked right before each action.

The library in `src/` is verified. Its contracts say what the functions return,
and the safety rules of the cleaner are stated and proved as laws (for example, that a protected application's uninstall plan is
fully locked, that related files always go to the Trash before the application
bundle, that a scan never enters an excluded root, and that an orphan search that
could not examine a folder reports no candidate, and that an uninstall pins a
related file only on fresh evidence under the Library folder of its kind, and
checks that folder again right before the move).

Paths are read by the conventions of a platform that the caller names
(`PathStyle`): Unix paths for the macOS side, and Windows paths, with drive and
share prefixes and `\` or `/` as separators, for the Windows scans and cleanups.
The broad roots that are never scanned or cleaned are those of that platform.

The library does no I/O. File-system walks, cleanups and uninstalls are state
machines that the caller drives: the library says which path to look at next and
what to do, the caller reports what the file system said. `CleanupExecutor`,
`UninstallExecutor` and the Windows cleanups also offer an `execute` that runs the
machine with a backend and an observer supplied by the caller.

Layout:

- `src/` — the verified library: models and policies (`model`, `action_policy`,
  `planner`, `safety`), scanning (`scanner`, `target`), execution (`executor`,
  `trust`), the uninstaller (`app_inventory`, `app_protection`, `related_files`,
  `orphan`, `uninstall_plan`, `uninstall_execution`), the macOS decisions
  (`mac_*`, `app_metadata`, `launch_agent`, `cli_args`), the Windows targets and
  cleanups (`windows`, `windows_cleanup`), and the interface state (`gui_state`).
- `tests/` — tests on concrete values, with in-memory file systems.
- `app/` — the `dxtr-cleaner` command: reads the file system, runs `plutil`,
  `codesign` and `launchctl`, and prints. It scans, reviews and plans; it offers
  no command that moves an application to the Trash.
