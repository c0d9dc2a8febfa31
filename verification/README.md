# ratctl

Configures gaming mice on Linux (ASUS ROG Spatha X, Razer DeathAdder V2, Corsair
Scimitar RGB Elite): button bindings, DPI presets, LEDs, polling rate, debounce and
profiles, from a TOML config file or an interactive terminal configurator.

## Layout

- `src/` — the library, verified with Verus:
  - `types.rs`, `devices.rs`: the profile model, button and LED codes, the key table,
    and the supported devices.
  - `config.rs`, `namemap.rs`: the config-file model and the conversions between it and a
    device profile (binding names, hex colors, numbered presets), with the law that a
    dumped profile applies back unchanged (a Corsair dump once its debounce time, written
    as 0, is set to an accepted one).
  - `protocol.rs`, `razer.rs`, `corsair.rs`: the three wire protocols — every request and
    packet the tool sends, every reply it reads, and the ordered writes that apply a profile.
  - `device.rs`, `evdev.rs`: recognising devices from their sysfs `uevent` files and mouse
    button events.
  - `tui.rs`, `views.rs`: the configurator as a state machine (key in, new state and action
    out) and the text of its screen.
  - `cli.rs`, `text.rs`: the command-line decisions and reports, and text helpers.
- `app/` — the program around it: argument parsing, files, hidraw and ioctl I/O, the input
  event device, and terminal drawing.
- `tests/` — tests of the library.
