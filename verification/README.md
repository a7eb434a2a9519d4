# rigbat

A battery monitor for gaming peripherals: a tray icon, a dashboard window, a
status-bar module, a one-shot table and a setup doctor.

- `src/` is the library: the rules behind every surface, written in Verus, each
  function with its contract. `domain` holds devices, readings, estimates and
  the roster; `app` the registry of devices and how polls and discovery sweeps
  change it; `config` the settings; `notifications` when a low battery is
  announced; `tray` which devices have an icon and what the windows are told;
  `icon` and `palette` what is drawn and in which colours; `cli`, `dashboard`,
  `doctor` and `i18n` what is said.
- `app/` is the program around it: buses, files, windows, pixels and clocks.
- `tests/` runs the library on concrete values.

What the library takes on trust from outside is in `src/strings.rs` (four
functions of the standard library) and `src/cli/json.rs` (two of `serde_json`).
