# device_envoy_core

Platform-independent logic for small embedded devices (LED panels and strips,
character LCDs, servos, buttons, touch screens with calibration, IR remotes,
audio clips, clocks, flash-backed storage, Wi-Fi provisioning), written in
Verus and proved against its contracts.

Layout:

- `src/` — the verified library. Each module models its data with spec
  functions and views, states what every public function returns or changes,
  and proves the cross-function laws as public `law_*` proof functions
  (layout rotations and flips, orientation cycles, ADPCM decoding, flash block
  round trips, clock speed changes, tiling coverage, and others).
- `tests/` — executable tests of the library on concrete values.
- `app/` — ordinary Rust around the library: async device loops, serde and
  `embedded-graphics` adapters, browser-side handles, and the floating-point
  touch calibration solver.

Three outside crates are called from verified code through small trusted
wrappers whose contracts are documented where they are declared: `crc32fast`
(block checksums), `time` (validating a time of day) and `heapless` (the
fixed-capacity animation, segment-grouping and Wi-Fi credential storage).
