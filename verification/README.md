# starter_kit

Control logic for the ESP32-S3 starter-kit circuits, written in Verus and
proved against its contracts, plus the firmware that drives the peripherals.

- `src/` — the verified library:
  - `fade` — `step_toward` and the RGB colour fade (`RgbFade`), with the proof
    that every fade reaches its target within `ARRIVAL_TICKS` ticks;
  - `scale` — `remap` (rounded toward zero, as Rust's `/`), the night-lamp and
    potentiometer duties;
  - `ws2812` — the WS2812 pulse train for one colour (green, red, blue, most
    significant bit first, then an end marker), and the proof that the train
    determines the colour;
  - `sweep` — the LED-bar chase order;
  - `palette` — the blinker's six-colour cycle;
  - `sensors` — joystick centring, the thermistor rail check, the buzzer duty.
- `tests/` — tests of the library on concrete values.
- `app/` — the firmware: peripheral set-up, waiting, logging, and the
  floating-point conversions (voltage, temperature, the alert tone).
