# iperf3-proto

The protocol side of an iperf3 (3.21) server subset for an ESP32-C6, written
in Verus: every function under `src/` carries a contract that Verus proves.

- `src/session.rs`: the control state machine. `Server` admits one test at a
  time; a `Session` takes control bytes in (`feed_ctrl`, `feed_params`,
  `data_ready`, `end_test`) and hands I/O commands out (`poll`). The
  transitions are spec functions (`ctrl_step`, `params_step`, ...), and
  well-formedness is a type invariant of `Session`.
- `src/history.rs`: sessions and the server over whole sequences of calls:
  the transcript of a test with polls anywhere, the cookie written once,
  one test at a time.
- `src/params.rs`: the rules on which client parameters are accepted, over
  `ParamsDoc`, what the client's JSON object holds under the keys they read.
- `src/frame.rs`, `src/udp.rs`, `src/be.rs`: length-prefixed JSON frames, the
  UDP datagram header and big-endian integers, with round-trip lemmas.
- `src/results.rs`: the results JSON the server sends, byte for byte.
- `app/`: the firmware around the library: Wi-Fi bring-up, embassy-net
  sockets, the async loop that runs the session, and the serde_json reading of
  the parameter text into a `ParamsDoc`.

`tests/` runs the library on concrete values.
