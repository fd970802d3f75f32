use vstd::prelude::*;
use crate::bits::{bit8, with_bit, lemma_bank_split, lemma_mask_test, lemma_with_bit, lemma_byte_from_bits, lemma_zero_byte};
use crate::geometry::{in_chip8_window, xy_from_chirp8, X_OFFSET, Y_OFFSET, LCD_WIDTH, LCD_HEIGHT, SCREEN_WIDTH, SCREEN_HEIGHT};

verus! {

/// The LCD frame buffer: 84 columns of six bytes, byte `b` of column `x`
/// holding the pixels `8 * b .. 8 * b + 8` of that column, the lowest row in
/// the least significant bit. This is the order in which the LCD takes them.
pub type Frame = [[u8; 6]; 84];

/// The LCD pixel `(x, y)` is dark (set) in `f`.
pub open spec fn lcd_lit(f: Frame, x: int, y: int) -> bool {
    0 <= x < LCD_WIDTH && 0 <= y < LCD_HEIGHT && bit8(f[x][y / 8], y % 8)
}

/// The CHIP-8 pixel `(x, y)` is set in `f`.
pub open spec fn chip8_lit(f: Frame, x: int, y: int) -> bool {
    lcd_lit(f, x + X_OFFSET, y + Y_OFFSET)
}

/// `after` is `before` with the LCD pixel `(x, y)` written to `v`, the byte
/// that holds it rewritten and every other byte untouched.
pub open spec fn pixel_written(before: Frame, after: Frame, x: int, y: int, v: bool) -> bool {
    forall|i: int, j: int|
        0 <= i < 84 && 0 <= j < 6 ==> #[trigger] after[i][j] == if i == x && j == y / 8 {
            with_bit(before[i][j], y % 8, v)
        } else {
            before[i][j]
        }
}

/// Every byte of `f` is zero: the LCD shows nothing.
pub open spec fn blank(f: Frame) -> bool {
    forall|i: int, j: int| 0 <= i < 84 && 0 <= j < 6 ==> #[trigger] f[i][j] == 0
}

/// Two frames with the same bytes are the same frame.
pub proof fn lemma_frame_ext(a: Frame, b: Frame)
    requires
        forall|i: int, j: int| 0 <= i < 84 && 0 <= j < 6 ==> #[trigger] a[i][j] == b[i][j],
    ensures
        a == b,
{
    assert forall|i: int| 0 <= i < 84 implies a[i] == b[i] by {
        assert(a[i] =~= b[i]);
    }
    assert(a =~= b);
}

/// Reading a pixel back after writing it gives the value written.
pub proof fn law_read_back(before: Frame, after: Frame, x: int, y: int, v: bool)
    requires
        0 <= x < LCD_WIDTH,
        0 <= y < LCD_HEIGHT,
        pixel_written(before, after, x, y, v),
    ensures
        lcd_lit(after, x, y) == v,
{
    assert(after[x][y / 8] == with_bit(before[x][y / 8], y % 8, v));
    lemma_with_bit(before[x][y / 8], y % 8, v, y % 8);
}

/// Writing a pixel leaves every other pixel of the LCD as it was.
pub proof fn law_write_keeps_others(before: Frame, after: Frame, x: int, y: int, v: bool, i: int, j: int)
    requires
        0 <= x < LCD_WIDTH,
        0 <= y < LCD_HEIGHT,
        pixel_written(before, after, x, y, v),
        i != x || j != y,
    ensures
        lcd_lit(after, i, j) == lcd_lit(before, i, j),
{
    if 0 <= i < LCD_WIDTH && 0 <= j < LCD_HEIGHT {
        assert(after[i][j / 8] == if i == x && j / 8 == y / 8 {
            with_bit(before[i][j / 8], y % 8, v)
        } else {
            before[i][j / 8]
        });
        if i == x && j / 8 == y / 8 {
            lemma_with_bit(before[i][j / 8], y % 8, v, j % 8);
        }
    }
}

/// Writing a pixel the value it already has changes nothing.
pub proof fn law_write_same_value(before: Frame, after: Frame, x: int, y: int, v: bool)
    requires
        0 <= x < LCD_WIDTH,
        0 <= y < LCD_HEIGHT,
        pixel_written(before, after, x, y, v),
        lcd_lit(before, x, y) == v,
    ensures
        after == before,
{
    let b = before[x][y / 8];
    assert forall|k: int| 0 <= k < 8 implies bit8(with_bit(b, y % 8, v), k) == bit8(b, k) by {
        lemma_with_bit(b, y % 8, v, k);
    }
    lemma_byte_from_bits(with_bit(b, y % 8, v), b);
    assert forall|i: int, j: int| 0 <= i < 84 && 0 <= j < 6 implies #[trigger] after[i][j]
        == before[i][j] by {
        assert(after[i][j] == if i == x && j == y / 8 {
            with_bit(before[i][j], y % 8, v)
        } else {
            before[i][j]
        });
    }
    lemma_frame_ext(after, before);
}

/// Of two writes to the same pixel, the second decides its value.
pub proof fn law_last_write_wins(a: Frame, b: Frame, c: Frame, x: int, y: int, v1: bool, v2: bool)
    requires
        0 <= x < LCD_WIDTH,
        0 <= y < LCD_HEIGHT,
        pixel_written(a, b, x, y, v1),
        pixel_written(b, c, x, y, v2),
    ensures
        pixel_written(a, c, x, y, v2),
{
    let o = y % 8;
    let byte = a[x][y / 8];
    assert forall|k: int| 0 <= k < 8 implies bit8(with_bit(with_bit(byte, o, v1), o, v2), k)
        == bit8(with_bit(byte, o, v2), k) by {
        lemma_with_bit(byte, o, v1, k);
        lemma_with_bit(with_bit(byte, o, v1), o, v2, k);
        lemma_with_bit(byte, o, v2, k);
    }
    lemma_byte_from_bits(with_bit(with_bit(byte, o, v1), o, v2), with_bit(byte, o, v2));
    assert forall|i: int, j: int| 0 <= i < 84 && 0 <= j < 6 implies #[trigger] c[i][j]
        == if i == x && j == y / 8 {
        with_bit(a[i][j], y % 8, v2)
    } else {
        a[i][j]
    } by {
        assert(b[i][j] == if i == x && j == y / 8 {
            with_bit(a[i][j], y % 8, v1)
        } else {
            a[i][j]
        });
        assert(c[i][j] == if i == x && j == y / 8 {
            with_bit(b[i][j], y % 8, v2)
        } else {
            b[i][j]
        });
    }
}

/// Writes to two different pixels give the same frame in either order.
pub proof fn law_writes_commute(
    a: Frame,
    b1: Frame,
    c1: Frame,
    b2: Frame,
    c2: Frame,
    x1: int,
    y1: int,
    v1: bool,
    x2: int,
    y2: int,
    v2: bool,
)
    requires
        0 <= x1 < LCD_WIDTH,
        0 <= y1 < LCD_HEIGHT,
        0 <= x2 < LCD_WIDTH,
        0 <= y2 < LCD_HEIGHT,
        x1 != x2 || y1 != y2,
        pixel_written(a, b1, x1, y1, v1),
        pixel_written(b1, c1, x2, y2, v2),
        pixel_written(a, b2, x2, y2, v2),
        pixel_written(b2, c2, x1, y1, v1),
    ensures
        c1 == c2,
{
    assert forall|i: int, j: int| 0 <= i < 84 && 0 <= j < 6 implies #[trigger] c1[i][j]
        == c2[i][j] by {
        assert(b1[i][j] == if i == x1 && j == y1 / 8 {
            with_bit(a[i][j], y1 % 8, v1)
        } else {
            a[i][j]
        });
        assert(c1[i][j] == if i == x2 && j == y2 / 8 {
            with_bit(b1[i][j], y2 % 8, v2)
        } else {
            b1[i][j]
        });
        assert(b2[i][j] == if i == x2 && j == y2 / 8 {
            with_bit(a[i][j], y2 % 8, v2)
        } else {
            a[i][j]
        });
        assert(c2[i][j] == if i == x1 && j == y1 / 8 {
            with_bit(b2[i][j], y1 % 8, v1)
        } else {
            b2[i][j]
        });
        if i == x1 && j == y1 / 8 && i == x2 && j == y2 / 8 {
            let byte = a[i][j];
            assert(y1 % 8 != y2 % 8);
            assert forall|k: int| 0 <= k < 8 implies #[trigger] bit8(
                with_bit(with_bit(byte, y1 % 8, v1), y2 % 8, v2),
                k,
            ) == bit8(with_bit(with_bit(byte, y2 % 8, v2), y1 % 8, v1), k) by {
                lemma_with_bit(byte, y1 % 8, v1, k);
                lemma_with_bit(with_bit(byte, y1 % 8, v1), y2 % 8, v2, k);
                lemma_with_bit(byte, y2 % 8, v2, k);
                lemma_with_bit(with_bit(byte, y2 % 8, v2), y1 % 8, v1, k);
            }
            lemma_byte_from_bits(
                with_bit(with_bit(byte, y1 % 8, v1), y2 % 8, v2),
                with_bit(with_bit(byte, y2 % 8, v2), y1 % 8, v1),
            );
        }
    }
    lemma_frame_ext(c1, c2);
}

/// A blank frame shows no pixel.
pub proof fn law_blank_is_dark(f: Frame, x: int, y: int)
    requires
        blank(f),
    ensures
        !lcd_lit(f, x, y),
{
    if 0 <= x < LCD_WIDTH && 0 <= y < LCD_HEIGHT {
        assert(f[x][y / 8] == 0);
        lemma_zero_byte(y % 8);
    }
}

/// The LCD shows nothing outside the window of the CHIP-8 screen.
pub open spec fn dark_outside_window(f: Frame) -> bool {
    forall|x: int, y: int|
        0 <= x < LCD_WIDTH && 0 <= y < LCD_HEIGHT && !in_chip8_window(x, y) ==> !#[trigger] lcd_lit(
            f,
            x,
            y,
        )
}

/// A blank frame is dark outside the window, and writes to pixels of the
/// CHIP-8 screen keep it so: what the machine draws stays in its window.
pub proof fn law_writes_stay_in_window(before: Frame, after: Frame, x: int, y: int, v: bool)
    requires
        dark_outside_window(before),
        0 <= x < SCREEN_WIDTH,
        0 <= y < SCREEN_HEIGHT,
        pixel_written(before, after, x + X_OFFSET, y + Y_OFFSET, v),
    ensures
        dark_outside_window(after),
{
    assert forall|i: int, j: int|
        0 <= i < LCD_WIDTH && 0 <= j < LCD_HEIGHT && !in_chip8_window(i, j) implies !#[trigger] lcd_lit(
        after,
        i,
        j,
    ) by {
        law_write_keeps_others(before, after, x + X_OFFSET, y + Y_OFFSET, v, i, j);
    }
}

/// A blank frame is dark outside the window.
pub proof fn law_blank_is_dark_outside_window(f: Frame)
    requires
        blank(f),
    ensures
        dark_outside_window(f),
{
    assert forall|i: int, j: int|
        0 <= i < LCD_WIDTH && 0 <= j < LCD_HEIGHT && !in_chip8_window(i, j) implies !#[trigger] lcd_lit(
        f,
        i,
        j,
    ) by {
        law_blank_is_dark(f, i, j);
    }
}

/// The peripherals of the board as the CHIP-8 machine sees them: the frame
/// buffer of the LCD, whether it changed since it was last sent, and the delay
/// timer.
pub struct Board {
    fb_dirty: bool,
    fb_pixels: [[u8; 6]; 84],
    countdown: u8,
}

impl Board {
    /// The frame buffer.
    pub closed spec fn frame(&self) -> Frame {
        self.fb_pixels
    }

    /// The frame buffer changed since it was last sent to the LCD.
    pub closed spec fn dirty(&self) -> bool {
        self.fb_dirty
    }

    /// The value of the delay timer.
    pub closed spec fn countdown_value(&self) -> u8 {
        self.countdown
    }

    /// A board with a blank, clean frame buffer and a stopped timer.
    pub fn new() -> (b: Board)
        ensures
            blank(b.frame()),
            !b.dirty(),
            b.countdown_value() == 0,
    {
        Board { fb_dirty: false, fb_pixels: [[0u8; 6]; 84], countdown: 0 }
    }

    /// The machine never stops on this board.
    pub fn keep_running(&self) -> (r: bool)
        ensures
            r,
    {
        true
    }

    /// Clears every pixel of the LCD and marks the frame buffer dirty.
    pub fn clear_pixels(&mut self)
        ensures
            blank(final(self).frame()),
            final(self).dirty(),
            final(self).countdown_value() == old(self).countdown_value(),
    {
        let mut c: usize = 0;
        while c < 84
            invariant
                c <= 84,
                self.countdown == old(self).countdown,
                forall|i: int, j: int| 0 <= i < c && 0 <= j < 6 ==> #[trigger] self.fb_pixels[i][j] == 0,
            decreases 84 - c,
        {
            let mut r: usize = 0;
            while r < 6
                invariant
                    c < 84,
                    r <= 6,
                    self.countdown == old(self).countdown,
                    forall|i: int, j: int|
                        0 <= i < c && 0 <= j < 6 ==> #[trigger] self.fb_pixels[i][j] == 0,
                    forall|j: int| 0 <= j < r ==> #[trigger] self.fb_pixels[c as int][j] == 0,
                decreases 6 - r,
            {
                self.fb_pixels[c][r] = 0;
                r = r + 1;
            }
            c = c + 1;
        }
        self.fb_dirty = true;
    }

    /// Sets the CHIP-8 pixel `(x, y)` to `v` and marks the frame buffer dirty.
    pub fn set_pixel(&mut self, x: u8, y: u8, v: bool)
        requires
            x + X_OFFSET < LCD_WIDTH,
            y + Y_OFFSET < LCD_HEIGHT,
        ensures
            pixel_written(old(self).frame(), final(self).frame(), x + X_OFFSET, y + Y_OFFSET, v),
            final(self).dirty(),
            final(self).countdown_value() == old(self).countdown_value(),
    {
        let (x, y) = xy_from_chirp8(x, y);
        proof {
            lemma_bank_split(y);
        }
        let row: u8 = y >> 3;
        let offset: u8 = y - (row << 3);
        let mask: u8 = 1 << offset;
        let bit: u8 = (if v { 1u8 } else { 0u8 }) << offset;
        let xi = x as usize;
        let ri = row as usize;
        self.fb_pixels[xi][ri] = (self.fb_pixels[xi][ri] & !mask) | bit;
        self.fb_dirty = true;
    }

    /// Whether the CHIP-8 pixel `(x, y)` is set.
    pub fn get_pixel(&self, x: u8, y: u8) -> (r: bool)
        requires
            x + X_OFFSET < LCD_WIDTH,
            y + Y_OFFSET < LCD_HEIGHT,
        ensures
            r == chip8_lit(self.frame(), x as int, y as int),
    {
        let (x, y) = xy_from_chirp8(x, y);
        proof {
            lemma_bank_split(y);
        }
        let row: u8 = y >> 3;
        let offset: u8 = y - (row << 3);
        let mask: u8 = 1 << offset;
        let b = self.fb_pixels[x as usize][row as usize];
        proof {
            lemma_mask_test(b, offset);
        }
        b & mask != 0
    }
}

/// The CHIP-8 pixel `(x, y)` lies on the falling diagonal of the square test
/// pattern, centred on the CHIP-8 screen.
pub open spec fn on_main_diagonal(x: int, y: int) -> bool {
    16 <= x < 48 && y == x - 16
}

/// The CHIP-8 pixel `(x, y)` lies on the rising diagonal of the square test
/// pattern.
pub open spec fn on_anti_diagonal(x: int, y: int) -> bool {
    16 <= x < 48 && y == 47 - x
}

/// `after` is `before` with the first `upto` columns of the test pattern drawn:
/// the falling diagonal set to `d`, the rising one to `!d`, every other pixel
/// of the LCD as it was.
pub open spec fn pattern_drawn(before: Frame, after: Frame, d: bool, upto: int) -> bool {
    forall|p: int, q: int|
        0 <= p < LCD_WIDTH && 0 <= q < LCD_HEIGHT ==> #[trigger] lcd_lit(after, p, q) == if on_main_diagonal(
            p - X_OFFSET,
            q - Y_OFFSET,
        ) && p - X_OFFSET < 16 + upto {
            d
        } else if on_anti_diagonal(p - X_OFFSET, q - Y_OFFSET) && p - X_OFFSET < 16 + upto {
            !d
        } else {
            lcd_lit(before, p, q)
        }
}

/// One half of the start-up test pattern: draws the two diagonals of the
/// square centred on the CHIP-8 screen, the falling one in `d` and the rising
/// one in `!d`. The board shows it with `d` set, then with `d` clear, then
/// clears the screen.
pub fn draw_test_pattern_phase(board: &mut Board, d: bool)
    ensures
        pattern_drawn(old(board).frame(), final(board).frame(), d, 32),
        final(board).dirty(),
        final(board).countdown_value() == old(board).countdown_value(),
{
    let dx: u8 = (SCREEN_WIDTH - SCREEN_HEIGHT) / 2;
    let mut i: u8 = 0;
    while i < SCREEN_HEIGHT
        invariant
            i <= SCREEN_HEIGHT,
            dx == 16,
            pattern_drawn(old(board).frame(), board.frame(), d, i as int),
            i > 0 ==> board.dirty(),
            board.countdown_value() == old(board).countdown_value(),
        decreases SCREEN_HEIGHT - i,
    {
        let ghost f0 = board.frame();
        board.set_pixel(i + dx, SCREEN_HEIGHT - (i + 1), !d);
        let ghost f1 = board.frame();
        board.set_pixel(i + dx, i, d);
        let ghost f2 = board.frame();
        proof {
            let ax = i + dx + X_OFFSET;
            let ay = SCREEN_HEIGHT - (i + 1) + Y_OFFSET;
            let mx = i + dx + X_OFFSET;
            let my = i + Y_OFFSET;
            law_read_back(f1, f2, mx, my, d);
            law_read_back(f0, f1, ax, ay, !d);
            law_write_keeps_others(f1, f2, mx, my, d, ax, ay);
            assert forall|p: int, q: int| 0 <= p < LCD_WIDTH && 0 <= q < LCD_HEIGHT implies #[trigger] lcd_lit(f2, p, q) == if on_main_diagonal(
                p - X_OFFSET,
                q - Y_OFFSET,
            ) && p - X_OFFSET < 16 + i + 1 {
                d
            } else if on_anti_diagonal(p - X_OFFSET, q - Y_OFFSET) && p - X_OFFSET < 16 + i + 1 {
                !d
            } else {
                lcd_lit(old(board).frame(), p, q)
            } by {
                if !(p == mx && q == my) {
                    law_write_keeps_others(f1, f2, mx, my, d, p, q);
                    if !(p == ax && q == ay) {
                        law_write_keeps_others(f0, f1, ax, ay, !d, p, q);
                        assert(lcd_lit(f0, p, q) == if on_main_diagonal(p - X_OFFSET, q - Y_OFFSET) && p - X_OFFSET < 16 + i {
                            d
                        } else if on_anti_diagonal(p - X_OFFSET, q - Y_OFFSET) && p - X_OFFSET < 16 + i {
                            !d
                        } else {
                            lcd_lit(old(board).frame(), p, q)
                        });
                    }
                }
            }
        }
        i = i + 1;
    }
}

impl Board {
    /// Nothing to do: the frame buffer is sent to the LCD by the timer tick.
    pub fn redraw(&mut self)
        ensures
            *final(self) == *old(self),
    {
    }

    /// Sets the delay timer.
    pub fn set_timer(&mut self, v: u8)
        ensures
            final(self).countdown_value() == v,
            final(self).frame() == old(self).frame(),
            final(self).dirty() == old(self).dirty(),
    {
        self.countdown = v;
    }

    /// Reads the delay timer.
    pub fn get_timer(&self) -> (r: u8)
        ensures
            r == self.countdown_value(),
    {
        self.countdown
    }

    /// Nothing to do: this board has no sound.
    pub fn set_sound(&mut self, v: u8)
        ensures
            *final(self) == *old(self),
    {
    }

    /// The board has no source of randomness; it always answers `0x42`.
    pub fn get_random(&mut self) -> (r: u8)
        ensures
            r == 0x42,
            *final(self) == *old(self),
    {
        0x42
    }
}

/// The delay timer after one 60 Hz tick: it counts down to zero and stays there.
pub open spec fn timer_after_tick(c: u8) -> u8 {
    if c > 0 { (c - 1) as u8 } else { 0 }
}

/// Hands out the frame buffer to be sent to the LCD if it changed since it was
/// last sent, and marks it clean.
pub fn redraw(board: &mut Board) -> (sent: Option<Frame>)
    ensures
        sent == if old(board).dirty() { Some(old(board).frame()) } else { None::<Frame> },
        !final(board).dirty(),
        final(board).frame() == old(board).frame(),
        final(board).countdown_value() == old(board).countdown_value(),
{
    if board.fb_dirty {
        board.fb_dirty = false;
        Some(board.fb_pixels)
    } else {
        None
    }
}

/// The 60 Hz timer interrupt: counts the delay timer down, then redraws.
pub fn tick(board: &mut Board) -> (sent: Option<Frame>)
    ensures
        final(board).countdown_value() == timer_after_tick(old(board).countdown_value()),
        sent == if old(board).dirty() { Some(old(board).frame()) } else { None::<Frame> },
        !final(board).dirty(),
        final(board).frame() == old(board).frame(),
{
    if board.countdown > 0 {
        board.countdown = board.countdown - 1;
    }
    redraw(board)
}

/// The delay timer after `n` ticks from `c`.
pub open spec fn timer_after_ticks(c: u8, n: nat) -> u8
    decreases n,
{
    if n == 0 {
        c
    } else {
        timer_after_ticks(timer_after_tick(c), (n - 1) as nat)
    }
}

/// The delay timer runs down by one per tick until it reaches zero.
pub proof fn law_timer_runs_down(c: u8, n: nat)
    ensures
        timer_after_ticks(c, n) == if n <= c { c - n } else { 0 },
    decreases n,
{
    if n > 0 {
        law_timer_runs_down(timer_after_tick(c), (n - 1) as nat);
    }
}

} // verus!
