# next_tablet_driver

Verified core of a cross-platform tablet driver, written in Verus.

`src/` holds the logic that is proved against its contracts:

- `protocol`: the 24-byte request / 1-byte response wire format of the
  command channel between reader processes and the HID owner, with
  round-trip and injectivity laws;
- `bridge`: what the HID owner publishes to readers (device name, status,
  mode, config version) and how readers read it back;
- `tablet`: report classification, injection planning, button edges and
  the scaling of pixel positions to the OS absolute-move range;
- `engine`: throttles, stall detection and config hot-reload timing;
- `i18n`: translation tables with English fallback and `{name}`
  interpolation;
- `settings`, `themes`, `startup`, `stats`, `logger`, `sysinfo`: profile
  name sanitizing, preferences, theme store rules, the autostart entry, the
  stats server lifecycle, the console buffer and the Linux system-file
  parsers;
- `text`: the character-level helpers they share.

`app/` is the unverified glue: sockets, file locks, shared memory, files,
threads, and the floating-point filter stages.
