//! The board side of a CHIP-8 machine on an ATmega328P breadboard toy: a
//! PCD8544 84x48 LCD, a 23K640 serial RAM and a 4x4 keypad. The library holds
//! what the board computes and decides, each with its contract: the LCD frame
//! buffer and the pixels of the CHIP-8 screen in it, the byte stream the LCD
//! takes, the keypad scan, the command bytes of the RAM chip and of the LCD,
//! and the timer settings.
pub mod bits;
pub mod board;
pub mod framebuffer;
pub mod geometry;
pub mod keypad;
pub mod pcd8544;
pub mod rom;
pub mod serial_ram;
pub mod timer;
