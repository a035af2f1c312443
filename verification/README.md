# USBIP Device Manager

A Windows desktop tool that binds and attaches USB devices to WSL through
[usbipd-win](https://github.com/dorssel/usbipd-win).

- `src/` is the library, verified with Verus: the device model and its
  parsers (`usbipd state`, the old text format, versions, ids), the
  configuration lists, the operation flows (bind, unbind, attach with its
  retries and polling, detach) as state machines, the window's controller
  (state reads, USB signals, automatic attach with debounce and watchdog,
  actions, notices), the daemon bookkeeping, snapshots and their diffs, the
  log lines and dates, and the colour schemes. `laws.rs` and the `law_*`
  proof functions state what holds across calls.
- `app/` is the program around it: the egui window, the tray icon, Windows
  processes and registry, the USB notification window, files and JSON.
- `tests/` runs the library on concrete values.

The program reads `appicon.png` and `fonts/NotoSansCJKsc-Regular.otf` from
the folder of the executable.
