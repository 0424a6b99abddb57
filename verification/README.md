# dmaster_core

Saving and applying monitor arrangements ("display profiles") on Linux (X11
through `xrandr`, GNOME Wayland through Mutter's D-Bus interface) and Windows.

- `src/` is the verified library: the display model, the layout rules applied
  before an arrangement is sent to the platform, the mapping of a saved
  profile onto the monitors connected now, the readers of what each platform
  reports, the requests sent to each platform, the stored profile formats and
  the texts of the menu and window. Every function carries a contract that
  Verus proves; `text.rs` holds the character-level specifications (lines,
  words, trimming, decimal numbers) that the others are stated in.
- `app/` is the command-line program around it: reading the environment,
  running `xrandr` or the Python D-Bus helper, calling Win32, reading and
  writing the JSON profile files, and the interactive prompts.
- `tests/` runs the library on concrete inputs.
