# fluidbox

Firmware for a particle fluid toy on a round 466×466 AMOLED panel (CO5300
over quad SPI) with a QMI8658 IMU and a PWR button behind a TCA9554 port
expander.

- `src/` is the integer core, with proved contracts:
  - `config`: panel, band and table dimensions;
  - `render`: byte-swapped RGB565 packing, the disc span table, disc
    rasterisation into a 22-row band, particle projection bookkeeping,
    band scheduling with two alternating transfer buffers, and band drawing
    (back to front, so particle 0 ends up on top);
  - `pattern`: the static cross-and-ring test pattern;
  - `button`: the debouncer that reports short presses;
  - `display`, `imu`, `sim`: byte-level command framing, register values,
    sample decoding and buffer limits.
- `app/` is the firmware around it: the esp-hal drivers, the C particle
  solver's foreign interface, the floating-point motion filter, colour ramp
  and perspective projection, and the two-core main loop.
- `tests/` exercises the library on concrete values.

Times handed to the debouncer are in microseconds of the 1 MHz system timer.
