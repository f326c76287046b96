# frostnote

The verified core of FrostNote, a desktop sticky-note and to-do application.

- `src/` is the library, checked by Verus: the records table as a store of
  rows with distinct ids, and every operation on it (adding, editing,
  soft-deleting, toggling to-dos, rolling overdue to-dos over to today,
  repairing legacy statuses, importing old records, merging remote records
  last-writer-wins, tracking what must be uploaded); the sync-column
  migration plan; and the decisions behind the main window (restore order,
  global shortcut, the watcher that restores a window stuck minimised in the
  foreground, window placement, tray icon and menu). `src/laws.rs` states
  and proves the properties that span operations.
- `tests/` runs the library on concrete values.
- `app/` is the Tauri shell: SQLite persistence through `rusqlite` (load every
  row, run a library operation, write the rows back), the Tauri commands, the
  tray, the shortcut and the Win32 calls.
