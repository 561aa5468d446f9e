# frgb

Verified core of `frgb`, a Linux daemon and GUI for wireless fan hubs with
RGB lighting and LCD screens. The library in `src/` is written in Verus:
each public function carries a `requires`/`ensures` contract proved by the
verifier, and the `law_*` proof functions state properties that span
several calls (round trips of the wire formats, rate limits, hysteresis,
playback invariants).

Layout:

- `src/` — the verified library, one module per concern: `openrgb` (SDK
  protocol encoding and per-packet decisions), `wire` (IPC frames, hello
  negotiation, reconnect backoff), `show` (sequence playback), `engine` (RPM
  change and anomaly detection, wear counters), `handler` (what the daemon
  does with each IPC request: saved curves, sequences, effects, LED presets
  and LCD templates, profiles, group entries, schedules, settings and their
  read-back, configuration export and import, bind scanning, speed control,
  merge order, stopping fans, colour sync, lighting and brightness, pump
  modes, LCD settings, effect cycles and sequences, identify flashes,
  resets, locking, motherboard sync and channels, with the hardware work
  returned as actions and the replies that wait for it completed from its
  results; device status and group lists are built from the devices the
  host reports, and sensor, screen and other listings are answered by
  naming the report, whose contents the host reads), `tick` (the
  order of one engine tick: flash restores and their lighting commands and
  events, the poll gate, the poll's events, LCD registration, pump
  keep-alive, curve commands for fan-capable groups, sequence playback), `curves`
  (fan curves: the speed at a temperature, ramp limits, the speeds applied
  as readings change, peak readings and curve suggestions), `bridge` (the
  GUI's request bridge: its command queue, lazy connection, greeting,
  replies and error texts), `settings_page` (schedule entries, sync
  settings, alert and daemon settings and status lines of the settings
  page), `speed_page` (slider, preset and mode requests of the speed page,
  stopping shows),
  `alerts`, `temp_rgb`, `scheduler`, `power`, `app_profiles`, `indicate`,
  `debounce`, `sensor_history`, `effects`, `rgb`, `rgb_page`, `led_page`
  (the LED editor's colours and the presets saved from and loaded into it),
  `lcd`, `lcd_manager` (LCD screen registry and per-tick frame scheduling),
  `presets` (animation presets found on disk and their listing order),
  `launch` (what the user is told when starting the daemon fails),
  `display_size` (the monitor resolution in `xdpyinfo`/`xrandr` output),
  `ui_state` (the GUI's device rows and status line under daemon events),
  `convert` (display names and labels), with shared helpers in `model`,
  `assoc`, `bytes` and `text`.
- `tests/` — executable tests of the library.
- `app/` — the host program: the IPC socket and the JSON shapes of its
  requests and replies, sockets, sysfs, the local clock, the focused
  window, configuration files, preset directories and threads.

Time is always supplied by the caller (monotonic seconds, milliseconds or
nanoseconds), and temperatures are carried in milli-degrees Celsius.
