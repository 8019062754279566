# rfid_stm32h750

The logic of an STM32H750 environment monitor and RFID reader, verified
with Verus: AHT20, BMP280 and DHT11 sensors, two RC522 reader drivers, the
ILI9341 frame buffer and its flush plans, the screen's widgets, the serial
console and its command parser.

Every bus transaction, pin access and delay is performed by the firmware:
the drivers are step machines that say what comes next and decide on the
result, and their step functions are proved against specifications of the
protocols.

- `src/` is the verified library.
- `tests/` run the machines against simulated devices.
- `app/` is the firmware shell: clocks, pins, buses, the loops that carry
  out the drivers' requests, floating-point conversions and drawing.
