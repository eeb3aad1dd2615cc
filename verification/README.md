# UAVLED

Firmware logic for an ESP32-C3 that drives an SK6812 RGBW strip, runs light scripts sent to it over
BLE, and takes firmware updates the same way. The logic is a Verus library: every function states
what it does and Verus proves it.

- `src/led.rs`: the frame buffer, the built-in effects, the functions that scripts call
- `src/sk6812.rs`: frames as pulses
- `src/ota.rs`: the update protocol and the plan of flash work
- `src/link.rs`: the BLE characteristic, through which scripts and firmware arrive
- `src/engine.rs`: the order of work around the script engine
- `src/strip_test.rs`: a test of the strip alone
- `src/laws/`: what holds across functions, such as that a firmware that was sent in order and
  committed stands byte for byte in the update partition, whatever the packet size and whatever was
  asked or refused in between, as long as its packets have distinct sequence numbers and the flash
  does its work
- `app/`: the device itself: radio, flash, pulse generator, script engine, log
- `tests/`: the library on concrete values

## Protocol

A write to the characteristic starts with a command byte.

| First byte | Meaning |
|------------|---------|
| `0x02` | firmware data: `[0x02][seq u16][total u32][offset u32][len u8][payload][xor u8]`, little-endian |
| `0x03` | how many bytes have been received? |
| `0x04` | the firmware is complete: write the rest and restart |
| `0x01`, or anything else | script text; a zero byte ends the script |

A read gives the answer to the last update request: `03 FF` taken, `03 FE` committed, `03 00` not
understood, `03 01` wrong checksum, `03 02` too large, `03 03` no update running, `03 04` not
complete, or `03` and the number of bytes received as four little-endian bytes.

Firmware bytes are gathered and go to the flash in blocks of 256; what a packet holds beyond a
block waits for the next one. A packet that ends before the bytes it announces counts for none;
those that arrived are gathered as far as the block has room. Sequence number 0 starts over: what was gathered is dropped, and the
partition is erased again before the first block. Sequence numbers end at 65535, so an update has at
most 65536 packets. A packet that starts over does not change the firmware size that a running
update was opened with.
