# capmeter

Verified core of a small capacitance meter. A microcontroller measures the
period of an oscillator whose frequency depends on the capacitor under test;
a host client reads the measurements over USB, switches a discharge
transistor and the input-capture prescaler, and calibrates a linear model
from period to capacitance.

`src/` is the library, verified with Verus:

- `protocol`: the device/host types (prescaler, commands, measurements).
- `frame`, `checksum`, `codec`, `buffers`: the chunk wire format of the
  multiplexed serial link (big-endian header with a CRC-16/USB checksum),
  the host's stream decoder and encoder over `bytes` buffers.
- `mux`, `stream`: host-side port registry, routing, error kinds, and the
  buffering behind the byte-stream adapters.
- `device`, `serial`, `time`, `global`, `measure`, `control`, `debug_led`:
  the firmware's chunk buffer and receive checks, UART reading, millisecond
  clock, shared-value cell, measuring loop, USB control-request handling and
  panic blink code.
- `client`: the host client's retry, de-duplication, averaging and
  calibration procedure.

`app/` is the command-line client: USB transfers, serialization, async
plumbing around the library, and the floating-point parts (SI formatting,
the linear fit).

The firmware's hardware side is in neither part: the microcontroller HAL
and register access (UART, timer input capture, GPIO), the embedded USB
stack and async executor, the panic handler and the debug print macros
need embedded crates that do not build for this host. The library holds
the decisions those drivers act on; a firmware build would call them from
its own driver code.
