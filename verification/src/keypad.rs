use vstd::prelude::*;
use crate::bits::{bit8, bit16};

verus! {

/// The keypad row (0 to 3) on which the CHIP-8 key `k` sits.
pub open spec fn key_row(k: int) -> int {
    if k == 0x1 || k == 0x2 || k == 0x3 || k == 0xc {
        0
    } else if k == 0x4 || k == 0x5 || k == 0x6 || k == 0xd {
        1
    } else if k == 0x7 || k == 0x8 || k == 0x9 || k == 0xe {
        2
    } else {
        3
    }
}

/// The keypad column (0 to 3) on which the CHIP-8 key `k` sits.
pub open spec fn key_col(k: int) -> int {
    if k == 0x1 || k == 0x4 || k == 0x7 || k == 0xa {
        0
    } else if k == 0x2 || k == 0x5 || k == 0x8 || k == 0x0 {
        1
    } else if k == 0x3 || k == 0x6 || k == 0x9 || k == 0xb {
        2
    } else {
        3
    }
}

/// The CHIP-8 key at row `row` and column `col` of the keypad:
/// `1 2 3 C / 4 5 6 D / 7 8 9 E / A 0 B F`.
pub open spec fn key_at(row: int, col: int) -> int {
    if col == 3 {
        0xc + row
    } else if row == 3 {
        if col == 0 {
            0xa
        } else if col == 1 {
            0x0
        } else {
            0xb
        }
    } else {
        1 + 3 * row + col
    }
}

/// Keys down in a keypad row, as `keys_from_rows` reads it: bit `c` set when
/// the key in column `c` is down.
pub open spec fn row_key_down(row: u8, col: int) -> bool {
    bit8(row, col)
}

/// The key word built from four rows has, at bit `k`, the bit of key `k` in
/// its row.
proof fn lemma_keys_word_bits(keys: u16, row0: u8, row1: u8, row2: u8, row3: u8)
    requires
        keys == (if (row3 & 1u8 << 1u8) == 0 { 0u16 } else { 1u16 }) << 0x0u16 | (if (row0 & 1u8
                << 0u8) == 0 { 0u16 } else { 1u16 }) << 0x1u16 | (if (row0 & 1u8 << 1u8) == 0 {
                0u16
            } else {
                1u16
            }) << 0x2u16 | (if (row0 & 1u8 << 2u8) == 0 { 0u16 } else { 1u16 }) << 0x3u16 | (if (row1
                & 1u8 << 0u8) == 0 { 0u16 } else { 1u16 }) << 0x4u16 | (if (row1 & 1u8 << 1u8) == 0 {
                0u16
            } else {
                1u16
            }) << 0x5u16 | (if (row1 & 1u8 << 2u8) == 0 { 0u16 } else { 1u16 }) << 0x6u16 | (if (row2
                & 1u8 << 0u8) == 0 { 0u16 } else { 1u16 }) << 0x7u16 | (if (row2 & 1u8 << 1u8) == 0 {
                0u16
            } else {
                1u16
            }) << 0x8u16 | (if (row2 & 1u8 << 2u8) == 0 { 0u16 } else { 1u16 }) << 0x9u16 | (if (row3
                & 1u8 << 0u8) == 0 { 0u16 } else { 1u16 }) << 0xau16 | (if (row3 & 1u8 << 2u8) == 0 {
                0u16
            } else {
                1u16
            }) << 0xbu16 | (if (row0 & 1u8 << 3u8) == 0 { 0u16 } else { 1u16 }) << 0xcu16 | (if (row1
                & 1u8 << 3u8) == 0 { 0u16 } else { 1u16 }) << 0xdu16 | (if (row2 & 1u8 << 3u8) == 0 {
                0u16
            } else {
                1u16
            }) << 0xeu16 | (if (row3 & 1u8 << 3u8) == 0 { 0u16 } else { 1u16 }) << 0xfu16,
    ensures
        bit16(keys, 0x0) == bit8(row3, 1),
        bit16(keys, 0x1) == bit8(row0, 0),
        bit16(keys, 0x2) == bit8(row0, 1),
        bit16(keys, 0x3) == bit8(row0, 2),
        bit16(keys, 0x4) == bit8(row1, 0),
        bit16(keys, 0x5) == bit8(row1, 1),
        bit16(keys, 0x6) == bit8(row1, 2),
        bit16(keys, 0x7) == bit8(row2, 0),
        bit16(keys, 0x8) == bit8(row2, 1),
        bit16(keys, 0x9) == bit8(row2, 2),
        bit16(keys, 0xa) == bit8(row3, 0),
        bit16(keys, 0xb) == bit8(row3, 2),
        bit16(keys, 0xc) == bit8(row0, 3),
        bit16(keys, 0xd) == bit8(row1, 3),
        bit16(keys, 0xe) == bit8(row2, 3),
        bit16(keys, 0xf) == bit8(row3, 3),
{
    assert({
        &&& ((keys >> 0x0u16) & 1u16 == 1u16) == ((row3 >> 1u8) & 1u8 == 1u8)
        &&& ((keys >> 0x1u16) & 1u16 == 1u16) == ((row0 >> 0u8) & 1u8 == 1u8)
        &&& ((keys >> 0x2u16) & 1u16 == 1u16) == ((row0 >> 1u8) & 1u8 == 1u8)
        &&& ((keys >> 0x3u16) & 1u16 == 1u16) == ((row0 >> 2u8) & 1u8 == 1u8)
        &&& ((keys >> 0x4u16) & 1u16 == 1u16) == ((row1 >> 0u8) & 1u8 == 1u8)
        &&& ((keys >> 0x5u16) & 1u16 == 1u16) == ((row1 >> 1u8) & 1u8 == 1u8)
        &&& ((keys >> 0x6u16) & 1u16 == 1u16) == ((row1 >> 2u8) & 1u8 == 1u8)
        &&& ((keys >> 0x7u16) & 1u16 == 1u16) == ((row2 >> 0u8) & 1u8 == 1u8)
        &&& ((keys >> 0x8u16) & 1u16 == 1u16) == ((row2 >> 1u8) & 1u8 == 1u8)
        &&& ((keys >> 0x9u16) & 1u16 == 1u16) == ((row2 >> 2u8) & 1u8 == 1u8)
        &&& ((keys >> 0xau16) & 1u16 == 1u16) == ((row3 >> 0u8) & 1u8 == 1u8)
        &&& ((keys >> 0xbu16) & 1u16 == 1u16) == ((row3 >> 2u8) & 1u8 == 1u8)
        &&& ((keys >> 0xcu16) & 1u16 == 1u16) == ((row0 >> 3u8) & 1u8 == 1u8)
        &&& ((keys >> 0xdu16) & 1u16 == 1u16) == ((row1 >> 3u8) & 1u8 == 1u8)
        &&& ((keys >> 0xeu16) & 1u16 == 1u16) == ((row2 >> 3u8) & 1u8 == 1u8)
        &&& ((keys >> 0xfu16) & 1u16 == 1u16) == ((row3 >> 3u8) & 1u8 == 1u8)
    }) by (bit_vector)
        requires
            keys == (if (row3 & 1u8 << 1u8) == 0 { 0u16 } else { 1u16 }) << 0x0u16 | (if (row0 & 1u8
                << 0u8) == 0 { 0u16 } else { 1u16 }) << 0x1u16 | (if (row0 & 1u8 << 1u8) == 0 {
                0u16
            } else {
                1u16
            }) << 0x2u16 | (if (row0 & 1u8 << 2u8) == 0 { 0u16 } else { 1u16 }) << 0x3u16 | (if (row1
                & 1u8 << 0u8) == 0 { 0u16 } else { 1u16 }) << 0x4u16 | (if (row1 & 1u8 << 1u8) == 0 {
                0u16
            } else {
                1u16
            }) << 0x5u16 | (if (row1 & 1u8 << 2u8) == 0 { 0u16 } else { 1u16 }) << 0x6u16 | (if (row2
                & 1u8 << 0u8) == 0 { 0u16 } else { 1u16 }) << 0x7u16 | (if (row2 & 1u8 << 1u8) == 0 {
                0u16
            } else {
                1u16
            }) << 0x8u16 | (if (row2 & 1u8 << 2u8) == 0 { 0u16 } else { 1u16 }) << 0x9u16 | (if (row3
                & 1u8 << 0u8) == 0 { 0u16 } else { 1u16 }) << 0xau16 | (if (row3 & 1u8 << 2u8) == 0 {
                0u16
            } else {
                1u16
            }) << 0xbu16 | (if (row0 & 1u8 << 3u8) == 0 { 0u16 } else { 1u16 }) << 0xcu16 | (if (row1
                & 1u8 << 3u8) == 0 { 0u16 } else { 1u16 }) << 0xdu16 | (if (row2 & 1u8 << 3u8) == 0 {
                0u16
            } else {
                1u16
            }) << 0xeu16 | (if (row3 & 1u8 << 3u8) == 0 { 0u16 } else { 1u16 }) << 0xfu16,
    ;
}

/// Gathers the four scanned keypad rows into the CHIP-8 key word: bit `k`
/// tells whether key `k` is down.
pub fn keys_from_rows(rows: [u8; 4]) -> (keys: u16)
    ensures
        forall|k: int| 0 <= k < 16 ==> #[trigger] bit16(keys, k) == row_key_down(rows[key_row(k)], key_col(k)),
{
    let row0 = rows[0];
    let row1 = rows[1];
    let row2 = rows[2];
    let row3 = rows[3];
    let keys: u16 = (if (row3 & 1u8 << 1u8) == 0 { 0u16 } else { 1u16 }) << 0x0u16 | (if (row0 & 1u8
        << 0u8) == 0 { 0u16 } else { 1u16 }) << 0x1u16 | (if (row0 & 1u8 << 1u8) == 0 { 0u16 } else {
        1u16
    }) << 0x2u16 | (if (row0 & 1u8 << 2u8) == 0 { 0u16 } else { 1u16 }) << 0x3u16 | (if (row1 & 1u8
        << 0u8) == 0 { 0u16 } else { 1u16 }) << 0x4u16 | (if (row1 & 1u8 << 1u8) == 0 { 0u16 } else {
        1u16
    }) << 0x5u16 | (if (row1 & 1u8 << 2u8) == 0 { 0u16 } else { 1u16 }) << 0x6u16 | (if (row2 & 1u8
        << 0u8) == 0 { 0u16 } else { 1u16 }) << 0x7u16 | (if (row2 & 1u8 << 1u8) == 0 { 0u16 } else {
        1u16
    }) << 0x8u16 | (if (row2 & 1u8 << 2u8) == 0 { 0u16 } else { 1u16 }) << 0x9u16 | (if (row3 & 1u8
        << 0u8) == 0 { 0u16 } else { 1u16 }) << 0xau16 | (if (row3 & 1u8 << 2u8) == 0 { 0u16 } else {
        1u16
    }) << 0xbu16 | (if (row0 & 1u8 << 3u8) == 0 { 0u16 } else { 1u16 }) << 0xcu16 | (if (row1 & 1u8
        << 3u8) == 0 { 0u16 } else { 1u16 }) << 0xdu16 | (if (row2 & 1u8 << 3u8) == 0 { 0u16 } else {
        1u16
    }) << 0xeu16 | (if (row3 & 1u8 << 3u8) == 0 { 0u16 } else { 1u16 }) << 0xfu16;
    proof {
        lemma_keys_word_bits(keys, row0, row1, row2, row3);
    }
    assert(rows[0] == row0 && rows[1] == row1 && rows[2] == row2 && rows[3] == row3);
    assert forall|k: int| 0 <= k < 16 implies #[trigger] bit16(keys, k) == row_key_down(
        rows[key_row(k)],
        key_col(k),
    ) by {
        if k == 0 {
        } else if k == 1 {
        } else if k == 2 {
        } else if k == 3 {
        } else if k == 4 {
        } else if k == 5 {
        } else if k == 6 {
        } else if k == 7 {
        } else if k == 8 {
        } else if k == 9 {
        } else if k == 10 {
        } else if k == 11 {
        } else if k == 12 {
        } else if k == 13 {
        } else if k == 14 {
        } else {
        }
    }
    keys
}

/// Every key sits on one square of the 4x4 keypad, and every square holds one
/// key: `key_at` undoes `key_row` and `key_col`, and the other way round.
pub proof fn law_keypad_layout()
    ensures
        forall|k: int|
            0 <= k < 16 ==> 0 <= #[trigger] key_row(k) < 4 && 0 <= key_col(k) < 4 && key_at(
                key_row(k),
                key_col(k),
            ) == k,
        forall|r: int, c: int|
            0 <= r < 4 && 0 <= c < 4 ==> 0 <= #[trigger] key_at(r, c) < 16 && key_row(key_at(r, c))
                == r && key_col(key_at(r, c)) == c,
{
}

/// Reads the four key lines of one keypad row off the port pins, as the board
/// wires them: line 0 is pin 5, line 1 pin 4, line 2 pin 3 and line 3 pin 2.
/// A line reads 1 when its pin is high.
pub fn decode_row(pins: u8) -> (row: u8)
    ensures
        row < 16,
        forall|c: int| 0 <= c < 4 ==> #[trigger] bit8(row, c) == bit8(pins, 5 - c),
{
    let row: u8 = (if !pins & 1u8 << 5u8 == 0 { 1u8 } else { 0u8 }) << 0u8 | (if !pins & 1u8 << 4u8
        == 0 { 1u8 } else { 0u8 }) << 1u8 | (if !pins & 1u8 << 3u8 == 0 { 1u8 } else { 0u8 }) << 2u8
        | (if !pins & 1u8 << 2u8 == 0 { 1u8 } else { 0u8 }) << 3u8;
    assert({
        &&& row < 16u8
        &&& ((row >> 0u8) & 1u8 == 1u8) == ((pins >> 5u8) & 1u8 == 1u8)
        &&& ((row >> 1u8) & 1u8 == 1u8) == ((pins >> 4u8) & 1u8 == 1u8)
        &&& ((row >> 2u8) & 1u8 == 1u8) == ((pins >> 3u8) & 1u8 == 1u8)
        &&& ((row >> 3u8) & 1u8 == 1u8) == ((pins >> 2u8) & 1u8 == 1u8)
    }) by (bit_vector)
        requires
            row == (if !pins & 1u8 << 5u8 == 0 { 1u8 } else { 0u8 }) << 0u8 | (if !pins & 1u8 << 4u8
                == 0 { 1u8 } else { 0u8 }) << 1u8 | (if !pins & 1u8 << 3u8 == 0 { 1u8 } else { 0u8 })
                << 2u8 | (if !pins & 1u8 << 2u8 == 0 { 1u8 } else { 0u8 }) << 3u8,
    ;
    assert forall|c: int| 0 <= c < 4 implies #[trigger] bit8(row, c) == bit8(pins, 5 - c) by {
        if c == 0 {
        } else if c == 1 {
        } else if c == 2 {
        } else {
        }
    }
    row
}

/// A key of the CHIP-8 key word is down exactly when the pin of its keypad
/// line was high in the reading of its row.
pub proof fn law_key_from_pins(pins: [u8; 4], rows: [u8; 4], keys: u16, k: int)
    requires
        forall|i: int, c: int| 0 <= i < 4 && 0 <= c < 4 ==> #[trigger] bit8(rows[i], c) == bit8(pins[i], 5 - c),
        forall|j: int| 0 <= j < 16 ==> #[trigger] bit16(keys, j) == row_key_down(rows[key_row(j)], key_col(j)),
        0 <= k < 16,
    ensures
        bit16(keys, k) == bit8(pins[key_row(k)], 5 - key_col(k)),
{
    assert(0 <= key_row(k) < 4 && 0 <= key_col(k) < 4);
    assert(bit8(rows[key_row(k)], key_col(k)) == bit8(pins[key_row(k)], 5 - key_col(k)));
}

/// The line that is pulled low to scan a keypad row.
#[derive(PartialEq, Eq, Structural, Clone, Copy, Debug)]
pub enum StrobeLine {
    /// Port C, pin 1: row 0.
    C1,
    /// Port C, pin 0: row 1.
    C0,
    /// Port B, pin 2: row 2.
    B2,
    /// Port B, pin 1: row 3.
    B1,
}

/// The line to pull low to scan keypad row `row`; rows past the fourth pull
/// nothing low.
pub fn row_strobe(row: u8) -> (line: Option<StrobeLine>)
    ensures
        line == if row == 0 {
            Some(StrobeLine::C1)
        } else if row == 1 {
            Some(StrobeLine::C0)
        } else if row == 2 {
            Some(StrobeLine::B2)
        } else if row == 3 {
            Some(StrobeLine::B1)
        } else {
            None::<StrobeLine>
        },
{
    match row {
        0 => Some(StrobeLine::C1),
        1 => Some(StrobeLine::C0),
        2 => Some(StrobeLine::B2),
        3 => Some(StrobeLine::B1),
        _ => None,
    }
}

/// Number of equal readings in a row after which a scan is taken as settled.
pub const SETTLE_READINGS: u8 = 20;

/// What the debouncer remembers: the last reading, the reading before it as it
/// was compared, and how many readings in a row matched the one before.
pub struct DebounceState {
    pub result: u8,
    pub buf: u8,
    pub streak: nat,
}

/// One reading fed to the debouncer.
pub open spec fn debounce_step(s: DebounceState, reading: u8) -> DebounceState {
    DebounceState {
        result: reading,
        buf: reading,
        streak: if s.buf == reading { s.streak + 1 } else { 0 },
    }
}

/// The debouncer after the readings `readings`, fed one after the other to a
/// fresh one.
pub open spec fn debounce_after(readings: Seq<u8>) -> DebounceState
    decreases readings.len(),
{
    if readings.len() == 0 {
        DebounceState { result: 0, buf: 0, streak: 0 }
    } else {
        debounce_step(debounce_after(readings.drop_last()), readings.last())
    }
}

/// A fresh debouncer compares its first reading with zero: the readings it
/// sees are `0` followed by those it was fed.
pub open spec fn debounce_history(readings: Seq<u8>) -> Seq<u8> {
    seq![0u8].add(readings)
}

/// A settled scan is a stable one: when the debouncer counts `n` matching
/// readings in a row, the last `n + 1` values it saw are all the reading it
/// reports.
pub proof fn law_settled_is_stable(readings: Seq<u8>, j: int)
    requires
        debounce_history(readings).len() - 1 - debounce_after(readings).streak <= j < debounce_history(
            readings,
        ).len(),
    ensures
        debounce_history(readings)[j] == debounce_after(readings).result,
        readings.len() > 0 ==> debounce_after(readings).result == readings.last(),
    decreases readings.len(),
{
    let h = debounce_history(readings);
    lemma_debounce_buf(readings);
    if readings.len() == 0 {
    } else {
        let prev = readings.drop_last();
        let hp = debounce_history(prev);
        assert(hp =~= h.drop_last());
        let sp = debounce_after(prev);
        let s = debounce_after(readings);
        if j == h.len() - 1 {
        } else {
            assert(s.streak > 0);
            assert(sp.buf == readings.last());
            law_settled_is_stable(prev, j);
            lemma_debounce_buf(prev);
            assert(h[j] == hp[j]);
        }
    }
}

/// Feeding one more reading to a debouncer that has seen `readings` leaves it
/// as one that has seen `readings` followed by that reading: the state that
/// `Debouncer::feed` keeps is the one `debounce_after` describes.
pub proof fn law_feed_extends_history(readings: Seq<u8>, reading: u8)
    ensures
        debounce_after(readings.push(reading)) == debounce_step(debounce_after(readings), reading),
{
    assert(readings.push(reading).drop_last() =~= readings);
}

/// `k` copies of the reading `r`.
pub open spec fn repeated(r: u8, k: nat) -> Seq<u8> {
    Seq::new(k, |i: int| r)
}

/// Every reading equal to the one before it counts, whatever its value: after
/// `k` more readings of `r`, the streak has grown by `k` if the last reading
/// was already `r`, and is at least `k - 1` in any case.
pub proof fn law_repeated_reading_counts(readings: Seq<u8>, r: u8, k: nat)
    ensures
        debounce_after(readings).buf == r ==> debounce_after(readings + repeated(r, k)).streak
            == debounce_after(readings).streak + k,
        k >= 1 ==> debounce_after(readings + repeated(r, k)).streak >= k - 1,
        k >= 1 ==> debounce_after(readings + repeated(r, k)).buf == r,
    decreases k,
{
    if k > 0 {
        let km1 = (k - 1) as nat;
        law_repeated_reading_counts(readings, r, km1);
        assert(readings + repeated(r, k) =~= (readings + repeated(r, km1)).push(r));
        law_feed_extends_history(readings + repeated(r, km1), r);
        if km1 == 0 {
            assert(readings + repeated(r, km1) =~= readings);
        }
    }
}

/// A port that reads the same value every time settles a fresh debouncer after
/// at most `SETTLE_READINGS + 1` readings.
pub proof fn law_constant_reading_settles(r: u8)
    ensures
        debounce_after(repeated(r, (SETTLE_READINGS + 1) as nat)).streak >= SETTLE_READINGS,
        debounce_after(repeated(r, (SETTLE_READINGS + 1) as nat)).result == r,
{
    let n = (SETTLE_READINGS + 1) as nat;
    law_repeated_reading_counts(Seq::<u8>::empty(), r, n);
    assert(Seq::<u8>::empty() + repeated(r, n) =~= repeated(r, n));
    lemma_debounce_buf(repeated(r, n));
}

/// The debouncer's compared value is the last value it saw, and it never
/// counts more matches than it was fed readings.
pub proof fn lemma_debounce_buf(readings: Seq<u8>)
    ensures
        debounce_after(readings).buf == debounce_history(readings).last(),
        debounce_after(readings).result == debounce_history(readings).last(),
        debounce_after(readings).streak <= readings.len(),
    decreases readings.len(),
{
    if readings.len() > 0 {
        lemma_debounce_buf(readings.drop_last());
    }
}

/// Debounces a keypad row: fed one port reading per millisecond, it reports
/// the row as settled once twenty readings in a row matched the one before.
pub struct Debouncer {
    result: u8,
    buf: u8,
    success_count: u8,
}

impl Debouncer {
    /// What the debouncer remembers.
    pub closed spec fn state(&self) -> DebounceState {
        DebounceState { result: self.result, buf: self.buf, streak: self.success_count as nat }
    }

    /// A debouncer that has seen no reading.
    pub fn new() -> (d: Debouncer)
        ensures
            d.state() == debounce_after(Seq::<u8>::empty()),
    {
        Debouncer { result: 0, buf: 0, success_count: 0 }
    }

    /// Enough matching readings in a row were seen.
    pub fn settled(&self) -> (r: bool)
        ensures
            r == (self.state().streak >= SETTLE_READINGS),
    {
        self.success_count >= SETTLE_READINGS
    }

    /// Feeds one reading of the port.
    pub fn feed(&mut self, reading: u8)
        requires
            old(self).state().streak < SETTLE_READINGS,
        ensures
            final(self).state() == debounce_step(old(self).state(), reading),
            final(self).state().result == reading,
            final(self).state().buf == reading,
            old(self).state().buf == reading ==> final(self).state().streak == old(self).state().streak
                + 1,
            old(self).state().buf != reading ==> final(self).state().streak == 0,
    {
        self.result = reading;
        self.success_count = if self.buf == self.result { self.success_count + 1 } else { 0 };
        self.buf = self.result;
    }

    /// The last reading.
    pub fn reading(&self) -> (r: u8)
        ensures
            r == self.state().result,
    {
        self.result
    }
}

} // verus!
