# rpi_control

Verified core of a hardware-control project for a Raspberry Pi and an
STM32L4 board driving an 8 x 8 WS2812 LED matrix.

- `src/` is the library, verified with Verus:
  - `led_matrix`: pixel colors and raw frames to the PWM duty-cycle buffer
    that the DMA channel streams to the matrix;
  - `frame_receiver`: the state machine that assembles frames (`#`, bytes,
    `?`) arriving over the Bluetooth serial link;
  - `protocol`: the CBOR requests of the Python script controller and the
    decoding of its replies (through `serde_cbor`);
  - `controller`: script state, settings (sliders `min:value:max` and plain
    variables), navigation bar, CPU temperature text;
  - `pages`: the web pages' data and the single-user login session;
  - `text`: character-level search, removal, splitting and `u32` parsing;
  - `gpio`, `test_patterns`: LED helper status codes and the duty patterns
    of the bring-up firmwares.
- `app/` holds the I/O: the Rocket web server, the ZeroMQ socket, shell
  commands, the Python extension module and the bare-metal firmware glue.
- `tests/` runs the library on concrete values.
