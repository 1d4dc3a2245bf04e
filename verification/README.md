# esp_radar

A compact Wi-Fi radar head: one transmitter and two receivers, all small
microcontroller boards on one rigid mount. The transmitter broadcasts
measurement frames; the receivers read the channel state out of them, report
features over wires, and the transmitter fuses both links into an occupancy
estimate for a dashboard.

This crate is the logic of the head and of its host tools, written in Verus:
every function states what it returns, and the verifier proves it.

## Layout

- `src/` the verified library
  - `wire`, `crc`, `protocol` the byte formats of frames and payloads
  - `transport` framing of byte streams, loss tracking, pairing of reports
  - `rp2350` the protocol of the optional coprocessor
  - `csi`, `dsp`, `features`, `calibration` from raw channel state to occupancy
  - `receiver`, `transmitter` the two firmwares as state machines
  - `storage`, `ota`, `web` settings, updates, telemetry
  - `capture`, `decoder`, `analysis`, `replay`, `generator`, `integration`,
    `em_sim`, `rf_sim` the host tools
  - `single`, `arith`, `text` helpers
- `tests/` tests of the library
- `app/` the programs around it: command-line tools, and the firmware when the
  target is the device

Single-precision numbers cross the library as bit patterns. Comparing and
carrying them is verified; arithmetic on them is done in `app/`.
