# stuart

A terminal user interface for serial ports, whose state machine is verified
with Verus.

- `src/` is the verified library. Every screen, key, mouse event, serial
  report and timer tick is a method of `state::App` that returns the work
  to carry out (`state::Effect`: write to the port, open it, feed the
  terminal emulator, copy to the clipboard, ...). The contracts state the
  new state and the effects exactly, and the laws of the library (the
  command line overriding the configuration file, received text being kept,
  reconnection after a device goes away, pausing and resuming, the history
  of typed lines, ...) are proof functions named `law_*`.
- `app/` is the program around it: command line parsing, the configuration
  file, the serial port threads, the terminal emulator, the clipboard and
  the drawing.
- `tests/` runs the library on concrete values.
