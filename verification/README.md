# web_serial_blinky

Firmware for a VCC-GND YD-RP2040 board: an on-board LED switched over a USB
serial port, and a WS2812 garland that plays random triangle-wave patterns.

- `src/` is the verified library (Verus):
  - `garland.rs`: colours, `no_pastel`, `mul_on_ratio`, `single_point`,
    `triangle_wave`, and the laws of the wave's shape;
  - `adc_rand_seed.rs`: the seed composed from the low bits of ADC samples;
  - `control.rs`: serial commands, the LED state machine and its replies;
  - `pattern.rs`: the random pattern source built on `tinyrand`;
  - `buffers.rs`: the `heapless` vectors and what the library relies on of them.
- `app/main.rs` is the RTIC firmware around the library (hardware, USB, timing).
- `tests/` runs the library on concrete values.
