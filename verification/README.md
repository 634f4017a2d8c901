# legion_toolkit

Control logic for Lenovo Legion laptops on the upstream `lenovo-wmi-*` and
`ideapad_laptop` sysfs interfaces: power profiles, battery charge modes,
firmware power limits (PPT), keyboard backlight, ideapad toggles, CPU boost,
fan readings, and the daemon, CLI and tray logic built on them. The library
is written in Verus, and the verifier proves the contracts of its functions.
A few small functions are trusted rather than proved: those that call the
standard library or `rustix` for what Verus cannot see (an `io::Error`'s
kind, OS error number and text, the OS error numbers themselves,
`String::push`, and `Debug` quoting of a string). Their contracts say what
is claimed of them, and where nothing can be claimed they say that.

## Layout

- `src/` — the verified library.
  - `sysfs` — `SysRoot`, a sysfs tree held as plain values (files,
    directories, failures, and the writes made), with its model `SysView`.
  - `text` — the string and number handling the rest is built from.
  - `error` — `HwError` and how an I/O failure is classified.
  - `profile`, `profile_watch`, `battery`, `ideapad`, `kbd_backlight`,
    `cpu`, `fan`, `firmware_attrs`, `detect` — one module per kernel
    interface.
  - `daemon` — the persisted state and the daemon's operations on the tree.
  - `ctl`, `commands`, `status` — the command-line tool's logic and report.
  - `gui`, `tray` — the dashboard's and tray's view of a daemon snapshot.
- `tests/` — tests of the library on trees built in memory.
- `app/` — the programs `legiond` and `legion-ctl`, and the tray of
  `legion-gui` (its dashboard window is not built: its Slint markup is not
  among these sources): argument parsing, the real `/sys`, D-Bus, polkit,
  the tray host, JSON and the floating-point figures.
