# tix

An alarm timer for the terminal. `tix 10m` rings in ten minutes, `tix 13:30` at the next 13:30, and
`tix 12/31/2026 8:15pm` at that local time. Alarms run in the background by default, or in the
foreground with `-f`.

- `src/` is the library: the command line, the settings, the wording of an alarm and the time at
  which it is due, the foreground display, the course of an alarm, and the records of background
  alarms. Every function states what it does in its contract, and Verus proves it.
- `app/` is the program around it: files, the clock, the terminal, signals, processes, sound and
  desktop notifications.
- `tests/` runs the library against `chrono`, `chrono-tz`, `humantime` and `std`.

The calls into `chrono`, `chrono-tz`, `humantime` and `iana-time-zone` stand in functions marked as
trusted, in `calendar.rs`, `zone.rs`, `wording.rs` and `config.rs`. What Verus believes of them is
in their contracts. Floating-point numbers reach the library as bit patterns, so that their range is
decided on integers.

The laws of the library are the public proof functions whose names begin with `law_`.
