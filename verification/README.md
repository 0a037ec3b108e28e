# tt_smi

A system-management tool for Tenstorrent accelerator cards, built around a
library whose logic is verified with Verus.

- `src/` is the verified library: decoding of chip telemetry words into
  readings, limits, firmware versions and device descriptions (`hardware`),
  the status rules (`telemetry`), the interactive view's state machine
  (`app_state`), the bounded telemetry history (`history`), the `query`
  fields and report layouts (`query`), the command decisions and the device
  list (`commands`), the reset configuration file read from and written to
  JSON (`config`),
  the table rows and themes of the view (`ui_model`), fixed-decimal and
  numeral texts (`display`, `text`), host description (`host`) and errors
  (`error`).
- `app/` is the program around it: command-line parsing, device access
  through the chip interface library and the driver, the terminal loop and
  drawing, and JSON output.
- `tests/` exercises the library on concrete values.

Readings are kept exactly in the units the chip reports (millivolts, amperes,
watts, MHz, and degrees in 1/65536 steps); the program converts them to
decimal text only for display.
