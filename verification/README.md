# chirp8_avr

The board side of a CHIP-8 machine built on an ATmega328P breadboard toy with
a PCD8544 84x48 LCD, a 23K640 serial RAM and a 4x4 keypad.

- `src/` is the verified library (Verus): the LCD frame buffer and the CHIP-8
  pixels in it (`board`), the byte stream the LCD takes for a CHIP-8 screen held
  as rows of bits (`framebuffer`), the screen geometry (`geometry`), the keypad
  scan (`keypad`), the command bytes of the LCD (`pcd8544`) and of the RAM chip
  (`serial_ram`), where the images are loaded (`rom`), the timer settings
  (`timer`) and the bit lemmas they rest on (`bits`).
- `app/` is the firmware around it: register I/O through `ruduino`, the SPI
  transfers, the busy-wait delay, the interrupt handler and the CHIP-8 engine's
  `Peripherals` trait.
- `tests/` runs the library on concrete values.
