use vstd::prelude::*;

verus! {

/// Width of the CHIP-8 screen, in pixels.
pub const SCREEN_WIDTH: u8 = 64;

/// Height of the CHIP-8 screen, in pixels.
pub const SCREEN_HEIGHT: u8 = 32;

/// Width of the PCD8544 LCD, in pixels.
pub const LCD_WIDTH: u8 = 84;

/// Height of the PCD8544 LCD, in pixels.
pub const LCD_HEIGHT: u8 = 48;

/// Number of eight-pixel banks in one LCD column.
pub const LCD_BANKS: u8 = 6;

/// Horizontal offset of the CHIP-8 screen inside the LCD.
pub const X_OFFSET: u8 = 10;

/// Vertical offset of the CHIP-8 screen inside the LCD.
pub const Y_OFFSET: u8 = 8;

/// The LCD pixel `(x, y)` shows a pixel of the CHIP-8 screen.
pub open spec fn in_chip8_window(x: int, y: int) -> bool {
    X_OFFSET <= x < X_OFFSET + SCREEN_WIDTH && Y_OFFSET <= y < Y_OFFSET + SCREEN_HEIGHT
}

/// Maps a CHIP-8 coordinate to the LCD coordinate that shows it: the CHIP-8
/// screen is centred on the LCD.
pub fn xy_from_chirp8(x: u8, y: u8) -> (r: (u8, u8))
    requires
        x + X_OFFSET <= u8::MAX,
        y + Y_OFFSET <= u8::MAX,
    ensures
        r.0 == x + X_OFFSET,
        r.1 == y + Y_OFFSET,
{
    let dx: u8 = (LCD_WIDTH - SCREEN_WIDTH) / 2;
    let dy: u8 = (LCD_HEIGHT - SCREEN_HEIGHT) / 2;
    (x + dx, y + dy)
}

} // verus!
