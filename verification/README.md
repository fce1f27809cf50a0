# lilygo_rs

Driver and firmware logic for the Melexis MLX90640 32×24 thermal camera on a
LilyGO T8 ESP32-S2 board, with its decisions and integer arithmetic proved
with Verus.

- `src/` — the verified library:
  - `words` — bit fields of the sensor's 16-bit words;
  - `types` — errors and refresh rates;
  - `calibration` — EEPROM decoding into exact integer parameters, the
    scaling of the drift coefficients, bad-pixel detection and the rules that
    refuse a sensor (more than four broken, four outlier or four bad pixels
    in all, or two bad pixels touching);
  - `frame` — register layout, byte/word conversion, refresh-rate control,
    bounded polling for a new frame, auxiliary and frame checks, frame assembly;
  - `patterns` — interleave/chess/conversion patterns and subpage membership;
  - `bad_pixels` — which neighbours rebuild a bad pixel;
  - `colormap` — ironbow and lava maps and the screen-test gradient as RGB565 words
    (built with `embedded-graphics`);
  - `hw`, `apps`, `fmt_buf`, `i2c_compat` — button waiting, menu and screen
    test decisions, the thermal view's colour-map toggle and image placement, a fixed text buffer and the
    I2C bus holder.
- `app/` — the firmware: board set-up, I2C and display I/O, the busy-wait
  loops, and the floating-point temperature calculation.
- `tests/` — tests of the library.
