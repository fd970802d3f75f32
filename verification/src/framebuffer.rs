use vstd::prelude::*;
use crate::bits::{
    bit8, bit64, lemma_mask_test64, lemma_mask_shift_down, lemma_shift_in, lemma_shift_in_moves, lemma_zero_shift,
    lemma_zero_byte,
};
use crate::board::{Frame, lcd_lit, chip8_lit, dark_outside_window};
use crate::geometry::{in_chip8_window, X_OFFSET, Y_OFFSET, LCD_WIDTH, LCD_HEIGHT, SCREEN_WIDTH, SCREEN_HEIGHT};

verus! {

const FB_X_START: u8 = (LCD_WIDTH - SCREEN_WIDTH) / 2;

const FB_X_END: u8 = FB_X_START + SCREEN_WIDTH;

const FB_Y_START: u8 = (LCD_HEIGHT - SCREEN_HEIGHT) / 2;

const FB_Y_END: u8 = FB_Y_START + SCREEN_HEIGHT;

/// Number of bytes in one LCD frame: six banks in each of 84 columns.
pub const FRAME_BYTES: usize = 504;

/// A CHIP-8 screen held as 32 rows of 64 pixels, the leftmost pixel of a row
/// in its most significant bit.
pub type Rows = [u64; 32];

/// The CHIP-8 pixel `(x, y)` is set in `data`.
pub open spec fn data_lit(data: Rows, x: int, y: int) -> bool {
    0 <= x < SCREEN_WIDTH && 0 <= y < SCREEN_HEIGHT && bit64(data[y], 63 - x)
}

/// The LCD pixel `(x, y)` is dark when the CHIP-8 screen `data` is shown
/// centred on the LCD.
pub open spec fn lcd_data_lit(data: Rows, x: int, y: int) -> bool {
    in_chip8_window(x, y) && data_lit(data, x - X_OFFSET, y - Y_OFFSET)
}

/// `b` is the LCD byte for bank `bank` of column `x` when the CHIP-8 screen
/// `data` is shown centred on the LCD: bit `k` is the pixel in row `8 * bank + k`.
pub open spec fn is_stripe(b: u8, data: Rows, x: int, bank: int) -> bool {
    forall|k: int| 0 <= k < 8 ==> #[trigger] bit8(b, k) == lcd_data_lit(data, x, 8 * bank + k)
}

/// `b` is byte number `pos` of the LCD frame that shows `data`, the bytes
/// ordered column by column, six banks to a column.
pub open spec fn is_frame_byte(b: u8, data: Rows, pos: int) -> bool {
    is_stripe(b, data, pos / 6, pos % 6)
}

/// The mask that picks the CHIP-8 column of LCD column `x` out of a row.
pub open spec fn column_mask(x: int) -> u64 {
    if x <= X_OFFSET {
        1u64 << 63u64
    } else if x < X_OFFSET + SCREEN_WIDTH {
        1u64 << ((X_OFFSET + SCREEN_WIDTH - 1 - x) as u64)
    } else {
        0
    }
}

/// Walks the LCD frame that shows a CHIP-8 screen, one byte at a time, in the
/// order in which the LCD takes them.
pub struct FBIter<'a> {
    data: &'a [u64; 32],
    x: u8,
    y: u8,
    mask: u64,
}

impl<'a> FBIter<'a> {
    /// The CHIP-8 screen being walked.
    pub closed spec fn source(&self) -> Rows {
        *self.data
    }

    /// How many bytes of the frame have been handed out.
    pub closed spec fn position(&self) -> int {
        self.x * 6 + self.y / 8
    }

    /// The walk is at a byte boundary of the frame, or at its end.
    pub closed spec fn wf(&self) -> bool {
        &&& self.x <= LCD_WIDTH
        &&& self.y % 8 == 0
        &&& self.y < LCD_HEIGHT
        &&& self.x == LCD_WIDTH ==> self.y == 0
        &&& self.mask == column_mask(self.x as int)
    }

    /// Starts a walk of the frame that shows `data`.
    pub fn new(data: &'a [u64; 32]) -> (it: FBIter<'a>)
        ensures
            it.wf(),
            it.source() == *data,
            it.position() == 0,
    {
        FBIter { data: data, x: 0, y: 0, mask: 1u64 << 63u64 }
    }

    fn stripe(&self) -> (r: u8)
        requires
            self.wf(),
            self.x < LCD_WIDTH,
        ensures
            is_stripe(r, self.source(), self.x as int, (self.y / 8) as int),
    {
        if self.x < FB_X_START || self.x >= FB_X_END {
            proof {
                assert forall|k: int| 0 <= k < 8 implies #[trigger] bit8(0u8, k) == lcd_data_lit(
                    self.source(),
                    self.x as int,
                    8 * ((self.y / 8) as int) + k,
                ) by {
                    lemma_zero_byte(k);
                }
            }
            return 0x00;
        }
        let x = self.x - FB_X_START;
        if self.y < FB_Y_START || self.y >= FB_Y_END {
            proof {
                assert forall|k: int| 0 <= k < 8 implies #[trigger] bit8(0u8, k) == lcd_data_lit(
                    self.source(),
                    self.x as int,
                    8 * ((self.y / 8) as int) + k,
                ) by {
                    lemma_zero_byte(k);
                }
            }
            return 0x00;
        }
        let y = self.y - FB_Y_START;
        let mut stripe: u8 = 0x00;
        let mut i: u8 = y + 8;
        proof {
            lemma_zero_shift();
        }
        while i > y
            invariant
                self.wf(),
                FB_X_START <= self.x < FB_X_END,
                FB_Y_START <= self.y < FB_Y_END,
                x == self.x - FB_X_START,
                y == self.y - FB_Y_START,
                y <= i <= y + 8,
                y + 8 <= SCREEN_HEIGHT,
                stripe >> ((y + 8 - i) as u8) == 0,
                forall|t: int|
                    0 <= t < y + 8 - i ==> #[trigger] bit8(stripe, t) == data_lit(
                        self.source(),
                        x as int,
                        i + t,
                    ),
            decreases i,
        {
            i = i - 1;
            let row: u64 = self.data[i as usize];
            proof {
                lemma_mask_test64(row, (63 - x) as u64);
            }
            let pixel: u8 = if row & self.mask == 0 { 0 } else { 1 };
            let ghost old_stripe = stripe;
            let ghost n = (y + 8 - (i + 1)) as u8;
            proof {
                lemma_shift_in(old_stripe, pixel, n);
            }
            stripe = (stripe << 1u8) | pixel;
            proof {
                assert forall|t: int| 0 <= t < y + 8 - i implies #[trigger] bit8(stripe, t)
                    == data_lit(self.source(), x as int, i + t) by {
                    if t > 0 {
                        lemma_shift_in_moves(old_stripe, pixel, t - 1);
                    }
                }
            }
        }
        stripe
    }

    /// The next byte of the frame, or `None` once all of it has been handed out.
    pub fn next(&mut self) -> (r: Option<u8>)
        requires
            old(self).wf(),
        ensures
            final(self).wf(),
            final(self).source() == old(self).source(),
            old(self).position() < FRAME_BYTES ==> {
                &&& r is Some
                &&& is_frame_byte(r->0, old(self).source(), old(self).position())
                &&& final(self).position() == old(self).position() + 1
            },
            old(self).position() >= FRAME_BYTES ==> r is None && final(self).position()
                == old(self).position(),
    {
        if self.x >= LCD_WIDTH {
            return None;
        }
        let result = self.stripe();
        self.y = self.y + 8;
        if self.y >= LCD_HEIGHT {
            self.y = 0;
            if self.x >= FB_X_START {
                proof {
                    if self.x < FB_X_END {
                        lemma_mask_shift_down((FB_X_END - 1 - self.x) as u64);
                    } else {
                        lemma_mask_shift_down(0);
                    }
                }
                self.mask = self.mask >> 1u64;
            }
            self.x = self.x + 1;
        }
        Some(result)
    }

    /// Hands out the rest of the frame.
    pub fn remaining_bytes(&mut self) -> (v: Vec<u8>)
        requires
            old(self).wf(),
        ensures
            final(self).wf(),
            final(self).source() == old(self).source(),
            final(self).position() == FRAME_BYTES,
            v.len() == FRAME_BYTES - old(self).position(),
            forall|t: int|
                0 <= t < v.len() ==> is_frame_byte(
                    #[trigger] v[t],
                    old(self).source(),
                    old(self).position() + t,
                ),
    {
        let mut v: Vec<u8> = Vec::new();
        loop
            invariant
                self.wf(),
                self.source() == old(self).source(),
                self.position() == old(self).position() + v.len(),
                forall|t: int|
                    0 <= t < v.len() ==> is_frame_byte(
                        #[trigger] v[t],
                        old(self).source(),
                        old(self).position() + t,
                    ),
            ensures
                self.wf(),
                self.source() == old(self).source(),
                self.position() == FRAME_BYTES,
                self.position() == old(self).position() + v.len(),
                forall|t: int|
                    0 <= t < v.len() ==> is_frame_byte(
                        #[trigger] v[t],
                        old(self).source(),
                        old(self).position() + t,
                    ),
            decreases FRAME_BYTES - self.position(),
        {
            match self.next() {
                Some(b) => {
                    v.push(b);
                },
                None => {
                    break ;
                },
            }
        }
        v
    }
}

/// Both ways of driving the LCD agree: a frame buffer that shows the CHIP-8
/// screen `data` in its window, and nothing around it, holds byte for byte the
/// frame that a walk of `data` hands out.
pub proof fn law_frame_buffer_matches_walk(f: Frame, data: Rows)
    requires
        forall|x: int, y: int|
            0 <= x < SCREEN_WIDTH && 0 <= y < SCREEN_HEIGHT ==> #[trigger] chip8_lit(f, x, y)
                == data_lit(data, x, y),
        dark_outside_window(f),
    ensures
        forall|pos: int| 0 <= pos < FRAME_BYTES ==> is_frame_byte(#[trigger] f[pos / 6][pos % 6], data, pos),
{
    assert forall|pos: int| 0 <= pos < FRAME_BYTES implies is_frame_byte(#[trigger] f[pos / 6][pos % 6], data, pos) by {
        let x = pos / 6;
        let bank = pos % 6;
        assert forall|k: int| 0 <= k < 8 implies #[trigger] bit8(f[x][bank], k) == lcd_data_lit(
            data,
            x,
            8 * bank + k,
        ) by {
            let y = 8 * bank + k;
            assert(y / 8 == bank && y % 8 == k);
            assert(lcd_lit(f, x, y) == bit8(f[x][bank], k));
            if in_chip8_window(x, y) {
                assert(chip8_lit(f, x - X_OFFSET, y - Y_OFFSET) == data_lit(data, x - X_OFFSET, y - Y_OFFSET));
            }
        }
    }
}

} // verus!
