# msp_gps_toy

Sends simulated GPS data to an INAV flight controller over MSP
(`MSP_SET_RAW_GPS` / `MSP2_SENSOR_GPS`), after reading its identification
(API version, name, firmware, version, build, board, analog readings).

Layout:

- `src/` — the verified library:
  - `crc.rs`: CRC-8/DVB-S2 and the XOR checksum, with their specifications;
  - `frame.rs`: MSP v1 and v2 request frames (`encode_msp`, `encode_msp2`);
  - `msp.rs`: command codes, `MSPRes`, `MSPMsg`;
  - `decode.rs`: the reply decoder as a state machine (`step`, `run`) and its
    executable form `MspDecoder`, with the read-timeout policy;
  - `describe.rs`: reading the identification replies and choosing the next request;
  - `gps.rs`: the GPS payloads, their byte layout, and the simulated position;
  - `laws.rs`: what holds of whole frames and streams (frames decode to their
    command and payload, bad checksums are reported, noise before a frame is
    skipped, reading in chunks changes nothing, the timeout policy).
- `app/` — the program: serial port, command line, clock, random walk, printing.
- `tests/` — tests of the library on concrete values.
