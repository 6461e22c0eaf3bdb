# portmap

Map names to localhost ports. This crate is the verified core of the `portmap`
command and dashboard. Every function under `src/` carries a contract that
Verus proves, except `text::push_char`, a trusted wrapper around std's
`String::push` (which vstd does not specify).

## Layout

- `src/text.rs`: HTML escaping, decimal rendering, CSS class names.
- `src/model.rs`: the records the logic reads (apps, tag colors, container
  ports, well-known service ports).
- `src/color.rs`: `#RRGGBB` parsing, the default palette, color dots, filter
  buttons and the CSS rules for custom tag colors.
- `src/categories.rs`: the sorted, duplicate-free list of categories.
- `src/rows.rs`: the dashboard rows (alive ports first, then offline apps).
- `src/page.rs`: the whole dashboard page.
- `src/list.rs`: the port table of `portmap list`.
- `src/cli.rs`: port parsing, `~/` expansion, the status box, the launchd and
  systemd service files.
- `src/messages.rs`: the reports of `add`, `remove`, `update` and `kill`.
- `app/`: the command line program around the library (database, scanning,
  process control, the HTTP server).
- `tests/`: tests of the library on concrete values.
