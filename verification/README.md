# salatui

A terminal application that shows and manages islamic prayer times: the
day's prayers with a marker for the current one, day and month navigation,
notifications, a two-pane settings editor with pickers for cities and
salatmv islands, and a `--output` mode that prints the times as an array,
JSON, TOML, raw data or a custom template.

## Layout

- `src/` — the library, verified with Verus:
  - `text` decimal rendering, trimming, splitting and integer parsing;
  - `conf` the configuration model and its defaults;
  - `prayer` prayer times and every output format;
  - `indicator` which rows the menu marks and highlights;
  - `notif` per-day notification bookkeeping;
  - `data` the salatmv tables and the yearly timesets read from them;
  - `provider` which provider the configuration asks for, with fallbacks;
  - `settings` the fields of the editor and how each one changes;
  - `state` the application state and what every key and click does to it;
  - `menu`, `ui_state` the text and geometry of the screens;
  - `input`, `clock` the current key and the local time of day.
- `app/` — the program: configuration file (confy), terminal (crossterm,
  ratatui), the salah calculator, notifications (notify-rust).
- `tests/` — tests of the library.

The salatmv tables (`atolls.csv`, `islands.csv`, `ptdata.csv`) and the city
list (`cities.csv`, rows `name;country;latitude;longitude`) are read from
`./data` or from the application's data directory.
