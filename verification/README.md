# Monitor Tray Control

A Windows tray app that changes a monitor's brightness over DDC/CI. Scroll the
mouse wheel over the tray icon to raise and lower brightness.

| Action | Result |
| --- | --- |
| Scroll up / down over the tray icon | Brightness +/- 5% |
| Hover the tray icon | Tooltip shows the monitor and current brightness |
| Right-click | Menu: presets (0/25/50/75/100%), Launch on startup, Reconnect, Quit |

The icon is a ring gauge that fills clockwise with the current level, in a light
or dark glyph to suit the taskbar theme.

## Layout

- `src/` is the library, written in Verus: the worker's state machine, the search
  for a display, the wheel, the gauge, the menu and the texts. Every function has
  a contract that Verus proves; the public functions named `law_*` state what
  holds of several of them together.
- `app/` is the program: the worker thread, the mouse hook, the tray and the
  registry. It performs the actions that the library asks for and hands back what
  came of them.
- `tests/` runs the library on concrete values. One of them draws the gauge in
  floating point at every percentage and compares it byte for byte.

Two small functions of the library rest on `ddc-hi` without proof: how the bytes
of a monitor's reply make up a value and a maximum.

## Limitations

- Single monitor: the first display that answers a brightness query is used.
- A monitor with fewer than a hundred brightness levels shows the percentage of
  its nearest level, which need not be the one that was asked for: with two
  levels, a preset of 25% shows as 0%.
- Building the app also takes the `wry` feature of `tauri`, which `Cargo.toml`
  does not turn on.
