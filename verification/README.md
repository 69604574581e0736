# myosa

Drivers and control logic for the MYOSA sensor kit and the boards built on
it, verified with Verus.

- `src/` is the verified library. Each bus driver records what it does on
  its bus as a sequence of operations, and its contracts state that sequence
  and what is computed from the bytes the device answers:
  - sensors: `apds9960` (light, proximity, gesture), `bmp180` (pressure),
    `si7021` (temperature and humidity), `accelgyro` (MPU6050), `airquality`
    (CCS811), and the minimal `mpu6050_min` / `si7021_min` drivers;
  - output: `actuator` (PCA9536 relay and buzzer), `gfx` (the graphics core
    and its canvases), `ssd1306` (the OLED panel driver), `oled` (the board's
    wrapper), `fontconvert` (the font converter's bit packing and names);
  - the platform and the sketches: `myosa` (events and BLE schedule),
    `ftserial` (line and marker framing), `assi`, `ads`, `steering`,
    `vibration`;
  - `wire` and `bits` hold the shared bus traits and bit lemmas.
- `tests/` runs the library against recorded buses and concrete values.
- `app/` holds what is not verified: floating-point conversions, display
  pages, printing, and the hardware loops that call the library.
