# Solar car telemetry

Ships CAN bus data from the solar car to the chase vehicle over an encrypted
XBee radio link, and shows it there.

- `src/` is the verified library: the wire format, the batching rules of the
  car side, the candump output of the receiver, the model that frames are
  applied to, the state of the radio link, and the words and colours of the
  dashboard. Every function carries a contract that Verus proves. `outside.rs`
  holds the calls into other crates, with what is taken on trust of each;
  `text.rs` takes `String::push` on trust.
- `tests/` runs the library on concrete values.
- `app/` holds the programs around it: `bridge`, `receiver` and `gui`. They do
  the I/O, the radio session and all floating-point work. They need the radio
  library `xbee_rust_modem_library` and the car's generated message decoders
  (`../solar_rust/src/messages_*.rs`) beside this directory.

Times are handed to the library: wall-clock time as Unix milliseconds,
monotonic time as nanoseconds. Measured values travel through it as the bit
patterns of single-precision numbers.
