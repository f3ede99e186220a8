# focuslock

The verified core of FocusLock, a desktop focus timer that cycles through
work and rest stages and covers the screen when it is time to rest.

- `src/` — the library, verified with Verus:
  - `config` — stages, reminder style, thresholds and the validation rules;
  - `state` — the persisted run state;
  - `engine::stage` — moving through the cycle and skipping a rest;
  - `engine::reset` — when a long absence restarts the cycle;
  - `engine::timer` — the timestamp-driven state machine (pause, resume,
    skip, restart, the one-second tick) and the events it emits;
  - `engine::laws` — properties over several operations (pause then resume,
    a paused timer holds, the cycle order, the notice sent once, the sound
    cues at the end of a stage);
  - `startup` — falling back to the default configuration and restoring the
    stored state at launch;
  - `version` — reading versions and ordering them for the update check;
  - `commands`, `notify`, `tray`, `overlay`, `platform` — the texts, URLs,
    positions and answers shown to the user.
- `app/` — the Tauri shell: files, the clock, the tick loop, windows, tray,
  notifications and shortcuts, calling into the library.
- `tests/` — tests of the library.

## Scope

- The configuration is a single cycle of stages, as in `config.json`. The
  engine runs the cycle it was started or last restarted with; a saved
  configuration is stored at once but its stages take effect only on
  "reset timer" or the next launch.
- Scheduled schemes (weekly routines, time periods, per-scheme sounds) are
  not part of this library: the schedule model they need (schemes, routines,
  period end actions, sound types) is not defined in the project's sources.
  Accordingly there is no schedule switching and no `PeriodEndedAction`
  event.
- Overlay addresses carry `primary=1` / `primary=0`.
- The update check reports an update only when the release is newer than
  the installed version by semantic-versioning precedence (`version`): the
  dot-separated numbers decide first (a missing part counts as 0), then a
  release outranks its pre-releases, which compare identifier by identifier;
  build parts (`+...`) do not count. A text that is not a version is never
  newer.
- Sound cues: with no per-scheme sound settings, every cue uses the built-in
  sound. A rest that runs out plays `rest_end:builtin` before `RestEnded`;
  a work stage that runs out into a rest plays `work_end:builtin` before
  `RestStarted`. Choosing custom sound files per scheme belongs to the
  schedule model above; the library lists and imports the files (`commands`).
