# X-Panel

A modular terminal panel: CPU, memory, disk, GPU, battery and power
readings, network traffic, temperatures and fans, a clock, a DeepSeek account
balance and web endpoint checks, each in its own box with its own refresh
interval, arranged in one to three columns.

## Layout

- `src/` is the library, verified with Verus. It holds everything the panel
  decides: how each module reads the text of `/proc`, `/sys` files and command
  output, what it shows, the module registry and its order and switches, the
  key handling, the column and height arithmetic, the refresh schedule, the
  log, the themes and the settings. Contracts state each function's result
  over `Seq<char>` and integer models; the `law_*` proof functions state what
  holds across calls.
- `app/` is the program around it: reading files, running commands, web
  requests, the terminal and the drawing with ratatui, the settings file.
- `tests/` runs the library on concrete inputs.

## Keys

| Key | Action |
|-----|--------|
| `q` | quit |
| `r` / `u` | refresh all modules / the selected one |
| space | pause or resume the selected module |
| `+` `=` / `-` | refresh interval +10 s (at most 300) / -5 s (at least 1) |
| arrows | select a module; left and right move between columns |
| `l` | cycle the layout through one, two and three columns |
| `[` `]` | narrow or widen the selected module's column |
| PgUp PgDn `{` `}` | share rows between the two modules of a column |
| `s` | module settings (show or hide modules) |
| Esc | about page |

## Data representation

The registry keeps its modules as a `Vec` of entries (id, module, shown
switch) with the invariant that no id occurs twice, beside the `Vec` of ids
that gives the display order. A `HashMap` keyed by `String` would take the
same calls, but Verus proves nothing about its contents under such keys (its
specification needs keys whose hashing and equality it models), while a
`Vec` with a no-duplicates invariant lets every lookup, replacement and switch
be stated and proved exactly. The same holds for the refresh schedule's clocks
and for the saved per-module settings, which are pairs of an id and its
settings.
