# rustems

Tooling and firmware logic for the RustEMS engine-management system, with
the protocol and control decisions proved correct by Verus.

## Layout

- `src/` — the verified library (every function has a contract that Verus
  proves):
  - `cobs`, `crc16`, `frame`, `message`, `defrag` — the RustEMS Device
    Protocol wire layer: COBS framing, CRC-16, frames with fragmentation,
    message headers and reassembly.
  - `cbor` — the RDP message bodies.
  - `rdp` — host-side RDP logic: the receive buffer, response matching,
    request numbering and telemetry unpacking.
  - `comms` — the device side: the TunerStudio-compatible responder and its
    request builder, the output-channel block, telemetry streams and the
    telemetry catalog hash, faults and events, control overrides, and the RDP
    server (`comms::rdp::server`): opcode dispatch, the config transaction,
    streams, one-shot reads, the paged telemetry catalog, overrides, bench
    tests, calibration routines and faults. The server's parameter, table,
    schema and Hello operations read the engine configuration parameter
    catalog, which this project does not include; the server hands those
    requests back to its caller (`RdpReply::Forward`).
  - `bootloader`, `image`, `outputs`, `hal`, `can` — the bootloader state
    machine, configuration images, fuel pump and tachometer outputs, the
    hardware traits, CAN dash streams and OBD-II answers.
  - `codegen` — the configuration code generator: definition-file parsing,
    the `#define` registry, the type model and C header / TunerStudio INI /
    Java constants generation.
- `tests/` — tests of the library.
- `app/` — the `rusefi` command-line tool (and, invoked as
  `rusefi-codegen`, the code generator), the async RDP and TunerStudio
  clients, CBOR codecs, and the engine control laws that compute in floating
  point.

Laws proved about the library include: COBS and frame round trips; a
message encoded for a stream transport, fragmented or not, is reassembled
whole by the receiver; a telemetry push built by the device unpacks on the
host to the values it was built from; what a TunerStudio read gives back
after a write; and the bootloader, fault store, override and fuel pump
invariants. The CAN functions are stated over the bus's transmit and
receive logs: which frames were offered, in order, and what was counted.
