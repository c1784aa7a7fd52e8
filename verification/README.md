# sync_client

The verified core of a desktop client that keeps local directories and
cloud storage in step through rclone's remote control API.

- `src/` is the library, verified with Verus: remote path rules (`text`),
  the JSON model of the remote control API (`rc_value`), the requests it
  is sent (`rc_api`) and what is read from its replies (`rc_reply`), the
  recursive listing walk (`listing`, over `filemap`), the difference scan
  between two listings (`diff`, with its laws in `scan_laws`), the run
  state and run decisions of sync tasks (`task_run`), the exclusion of
  deselected changes from a run (`selection`), file browser operations
  (`transfers`, `browse`), the daemon start-up rules and the choice of the
  rclone program (`daemon`), and the trailing-edge change debouncer
  (`watcher`).
- `app/` is the application around it: the window's commands, the SQLite
  store, the rclone process and its HTTP calls, the background runs and the
  directory watchers.
- `tests/` runs the library on concrete values.
