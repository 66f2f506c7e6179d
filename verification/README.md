# aw_switcher

A menu bar / system tray app that switches a monitor's input source over
DDC/CI (VCP feature 0x60) when a global hotkey is pressed or a tray menu item
is chosen.

- `src/` is the library, verified with Verus:
  - `config.rs`: the configuration, its defaults, the hotkey's cycle over the
    enabled inputs and the toggles the tray menu performs, with the cycle's laws;
  - `menu.rs`: the tray menu's full layout, its item ids and the command each
    id stands for, the monitor error shown in the status line, the tooltip,
    and the decisions of the hotkey capture window;
  - `monitor.rs`: choosing the target display, the retry policy of DDC/CI
    commands, and how input codes travel over VCP 0x60;
  - `macos_ddc.rs`: DDC/CI request packets and their checksum, reply and write
    status handling, and the decisions of the IOKit registry walk;
  - `icon.rs`: the tray icon's pixels;
  - `text.rs`: decimal and hexadecimal rendering, decimal parsing and character
    comparisons.
- `app/` is the program around it: the event loop, the tray and windows, the
  config file on disk, hotkey registration, launch at login and the DDC/CI and
  IOKit calls.
- `tests/` exercises the library on concrete values.
