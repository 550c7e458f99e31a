# arctis_chatmix

The decision-making core of a SteelSeries Arctis Nova Elite companion
daemon for PipeWire desktops, verified with Verus.

- `src/` — the verified library: the HID report protocol and the device
  match (`hid`), the virtual sinks, `pactl`/`pw-cli`/`pw-link` listing
  parsers, persisted routing and volumes, and the EQ filter-chain decisions
  (`audio`), EQ models, presets, Sonar share links and spatial settings
  (`eq`), the replay-clip buffer state machine, the capture supervisor, the
  clip index and retention, game detection and the settings file (`clips`),
  desktop entries (`desktop`) and the text and path model the parsers share
  (`text`, `paths`). Each public function states its result exactly; the
  `law_*` proof functions state properties that span calls.
- `tests/` — executable tests of the library.
- `app/` — the daemon: process and file I/O, threads, signals, floating-point
  band values and the filter-chain text, all driven by the library.
