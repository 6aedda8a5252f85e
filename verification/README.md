# LTC2949

Verified register protocol for the Analog Devices LTC2949 current, voltage, charge, and energy
monitor, alone on its bus or in parallel with an LTC68xx cell-monitor chain.

The library performs no I/O. A client asks for bus actions of an `SpiTranscript` and is handed
their replies; an operation that lacks a reply stops with `Error::Awaiting`, the host performs
the action, enters the reply, rewinds, and runs the operation again. Mandatory waits are
returned to the host. Floating-point numbers cross the boundary as their IEEE 754 bit patterns.

## Layout

| Path | Contents |
| --- | --- |
| `src/bus.rs`, `src/polling.rs`, `src/link.rs` | bus actions and replies, end of a command, direct commands and the cached page |
| `src/dcmd.rs`, `src/pec15.rs`, `src/bytes.rs` | frames, packet error code, big-endian integers |
| `src/registers.rs`, `src/config.rs` | addresses, bit fields, configuration values |
| `src/measurements.rs`, `src/readout.rs`, `src/fifo.rs` | results, typed reads, FIFO drains |
| `src/thresholds.rs`, `src/float24.rs`, `src/compensation.rs` | threshold codes, Float24, temperature compensation |
| `src/rounding.rs`, `src/binary.rs` | IEEE 754 arithmetic |
| `src/client.rs`, `src/ltc2949.rs` | client with decoded results, client with raw results |
| `src/laws.rs`, `src/replay.rs` | what holds across operations: page coherence, read-back, running an operation again |
| `src/example.rs` | a device and a delay for examples |
| `app/` | the clients on an `embedded-hal` SPI device, with native floating-point numbers |
| `tests/` | tests |

Every operation is specified as a function from the state of the link to its result and the
state after it (`LinkView`), so a contract fixes the bytes on the bus, the value returned, each
error, and the page that is known afterwards.
