# standalone_tray

The decision logic of a StatusNotifier tray shown in a plain GTK window,
verified with Verus.

- `src/` is the verified library:
  - `text.rs`: decimal formatting, white-space separated words, substring
    search, splitting at a separator.
  - `icon.rs`: what an item's widget shows (visibility, themed icon or
    pixmap, tooltip), pixmap choice and ARGB to RGBA conversion.
  - `menu.rs`: DBusMenu label cleaning and the section/submenu/action
    layout of a menu.
  - `volume.rs`: reading `wpctl get-volume` output, `pactl subscribe`
    filtering, and the volume widget's icon, label and tooltip.
  - `battery.rs`: the battery widget's icon, label and tooltip, and
    duration formatting.
  - `tray.rs`: the row of item widgets as a state machine over
    StatusNotifier events, click handling, and item addresses.
- `app/` is the GTK program: windows, widgets, D-Bus, subprocesses and the
  floating-point volume and percentage values; it hands plain values to the
  library and carries out what the library decides.
- `tests/` runs the library on concrete inputs.
