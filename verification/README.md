# ke_auto_profile_switcher

Switches Karabiner-Elements profiles according to which keyboards (USB or
Bluetooth) are connected.

- `src/` is the verified library: device identification and matching, the
  configuration formats and where configuration comes from, the interactive
  setup dialog's steps, what the legacy USB monitor does after each handler,
  the monitor's decisions (which devices are tracked, which profile to apply,
  when to switch), reading the IORegistry and `system_profiler` data, and the text
  handling these need. Its properties are proved in `src/monitor/properties.rs`
  and `src/config.rs`.
- `app/` is the `kaps` program: command line, configuration file I/O and
  the setup prompts, running Karabiner's command line tool and
  `system_profiler`, and the IOKit notification loop on macOS.
- `tests/` exercises the library.
