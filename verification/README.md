# dotfiles_tools

The logic of a small desktop toolkit — a status bar, an application
launcher and a monitor-profile session manager — as a Verus-verified
library, with a thin command-line front end.

## Layout

- `src/` — the verified library. Each public function states its result in
  its `ensures`; the proof functions state laws that span functions.
  - `text`, `sort` — character-sequence specifications and helpers, and a
    stable index sort by composite keys.
  - `model`, `search`, `sources`, `catalog`, `prediction`, `password`,
    `launcher` — the launcher: query parsing and fuzzy scoring, the rows each
    source offers and their ranking, learned predictions, reading bookmarks,
    recent files, SSH hosts and compositor windows into entries, `pass`
    credentials and typing commands, and what activating a row does.
  - `state`, `context`, `system`, `wm`, `surface`, `compare`, `registry`,
    `popovers`, `theme`, `artwork`, `control_center`, `control_spec`,
    `control_view`, `intents`, `navigation` — the bar: what each output shows
    and which parts to redraw, which bars to open and close, the status
    modules, the control center's contents, pages, motion and status lines,
    the requests its controls send, popover routing, theme paths, and which
    artwork to ask for and keep.
  - `monitor`, `config` — the session manager: stable monitor identities,
    hardware hashes and saved profiles.
- `app/` — reads files, runs programs and prints: the session manager CLI,
  a text-mode launcher that searches and carries out a chosen row, and the
  bar's stylesheet and artwork helpers.
- `tests/` — tests of the library on concrete values.
