# gxdl_rs

A NationalChip GX BootROM uploader and bootloader command client. The
library under `src/` holds the protocol's logic, verified with Verus; the
`gxdl-rs` program under `app/` drives a serial port with it.

- `text`: words, trimming, lines, numbers as text.
- `protocol`: numbers on the command line, the GX checksum, the markers and
  detectors of the BootROM and loader protocol, the receive buffer
  (`Session`).
- `loader`: `.boot` images and their two upload stages; `loader::embedded`,
  how a model name picks a carried loader.
- `commands`: command lines, what each command sends and waits for,
  configuration files, file comparison.
- `exchange`: each exchange with a device (upload, prompt, text command,
  binary read and write) as a state machine; the caller does the I/O.
- `cli`, `uploader`, `console`, `serial`: the options and their rules, the
  uploader's settings, the progress bar, reports and confirmations, the
  loopback check.

The program reads the command line (clap), opens the port (serial2), reads
and writes files, and runs the exchanges' steps.
