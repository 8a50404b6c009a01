# pomodori

The logic of a Pomodoro timer desktop app, verified with Verus.

- `src/timer/` — the countdown state machine (`Timer`), its value
  (`TimerView`) and its laws: the seconds left never exceed the session,
  a running timer finishes after exactly its remaining seconds, held time
  does not count, stopping an idle start is a reset.
- `src/database/` — the session log (`SessionStore`): recording and
  completing sessions, listing the sessions of a date range newest first,
  and the totals over them; with laws tying listing and totals together.
- `src/text.rs` — byte-wise text order (SQLite's binary collation).
- `src/settings.rs`, `src/commands.rs`, `src/tray.rs`, `src/windows.rs` —
  preferences, the tick-loop and notification decisions, the tray menu
  and the context menu.
- `app/` — the Tauri shell: commands, SQLite persistence through sqlx,
  settings storage, tray and windows. It is ordinary Rust around the
  library.
- `tests/` — scenario tests of the timer and the session log, and tests
  per function and law.
