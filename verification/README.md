# niles

The deterministic side of a tmux harness for agent CLIs, as a Verus library with a thin
command-line front end.

- `src/` is the library. Every function states what it returns in `requires`/`ensures`
  and Verus proves it: worker ids and labels, status-log scanning and wake delivery,
  spawn plans, close steps and the lead launch, check-in arming and re-arming, the watcher's nudge plan, the waiter guard's takeover
  protocol, tmux targets and arguments, usage attribution and transcript summaries, and
  the text every command prints. The few calls into outside crates (camino, chrono,
  serde_json, uuid, and `String::from_utf8_lossy`/`String::push` from std) sit behind
  small trusted wrappers whose doc comments say what is assumed of them.
- `app/` is a command-line front end: bare `niles` (which launches the lead in the current
  pane), `spawn`, `wait`, `report`, `quiet`, `peek`, `send`, `workers`, `close` and `watch`. It
  handles arguments, files, tmux and locks; it reads what the library needs, hands it over as
  plain values, carries out the steps the library decides on (a spawn's plan, a close's steps,
  the lead launch's steps), and prints or writes what comes back. Capturing usage and the
  waiter guard are in the library but have no command here.
- `tests/` runs the library on concrete inputs.
