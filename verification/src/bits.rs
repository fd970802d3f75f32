use vstd::prelude::*;

verus! {

/// Bit `k` (counting from the least significant bit) of a byte.
pub open spec fn bit8(b: u8, k: int) -> bool {
    0 <= k < 8 && (b >> (k as u8)) & 1u8 == 1u8
}

/// Bit `k` of a 16-bit word.
pub open spec fn bit16(w: u16, k: int) -> bool {
    0 <= k < 16 && (w >> (k as u16)) & 1u16 == 1u16
}

/// Bit `k` of a 64-bit word.
pub open spec fn bit64(w: u64, k: int) -> bool {
    0 <= k < 64 && (w >> (k as u64)) & 1u64 == 1u64
}

/// The byte `b` with bit `o` forced to `v`, written the way the frame buffer
/// update writes it: clear the bit with a mask, then or in the new value.
pub open spec fn with_bit(b: u8, o: int, v: bool) -> u8 {
    (b & !(1u8 << (o as u8))) | ((if v { 1u8 } else { 0u8 }) << (o as u8))
}

/// Two bytes with the same eight bits are the same byte.
pub proof fn lemma_byte_from_bits(a: u8, b: u8)
    requires
        forall|k: int| 0 <= k < 8 ==> bit8(a, k) == bit8(b, k),
    ensures
        a == b,
{
    assert(bit8(a, 0) == bit8(b, 0));
    assert(bit8(a, 1) == bit8(b, 1));
    assert(bit8(a, 2) == bit8(b, 2));
    assert(bit8(a, 3) == bit8(b, 3));
    assert(bit8(a, 4) == bit8(b, 4));
    assert(bit8(a, 5) == bit8(b, 5));
    assert(bit8(a, 6) == bit8(b, 6));
    assert(bit8(a, 7) == bit8(b, 7));
    assert(a == b) by (bit_vector)
        requires
            ((a >> 0u8) & 1u8 == 1u8) == ((b >> 0u8) & 1u8 == 1u8),
            ((a >> 1u8) & 1u8 == 1u8) == ((b >> 1u8) & 1u8 == 1u8),
            ((a >> 2u8) & 1u8 == 1u8) == ((b >> 2u8) & 1u8 == 1u8),
            ((a >> 3u8) & 1u8 == 1u8) == ((b >> 3u8) & 1u8 == 1u8),
            ((a >> 4u8) & 1u8 == 1u8) == ((b >> 4u8) & 1u8 == 1u8),
            ((a >> 5u8) & 1u8 == 1u8) == ((b >> 5u8) & 1u8 == 1u8),
            ((a >> 6u8) & 1u8 == 1u8) == ((b >> 6u8) & 1u8 == 1u8),
            ((a >> 7u8) & 1u8 == 1u8) == ((b >> 7u8) & 1u8 == 1u8),
    ;
}

/// Writing bit `o` changes that bit to `v` and no other bit.
pub proof fn lemma_with_bit(b: u8, o: int, v: bool, k: int)
    requires
        0 <= o < 8,
        0 <= k < 8,
    ensures
        bit8(with_bit(b, o, v), k) == if k == o { v } else { bit8(b, k) },
{
    let ou = o as u8;
    let ku = k as u8;
    let w: u8 = if v { 1u8 } else { 0u8 };
    assert(((((b & !(1u8 << ou)) | (w << ou)) >> ku) & 1u8 == 1u8) == (if ku == ou {
        w == 1u8
    } else {
        (b >> ku) & 1u8 == 1u8
    })) by (bit_vector)
        requires
            ou < 8u8,
            ku < 8u8,
            w == 0u8 || w == 1u8,
    ;
}

/// The zero byte has no bit set.
pub proof fn lemma_zero_byte(k: int)
    ensures
        !bit8(0u8, k),
{
    if 0 <= k < 8 {
        let ku = k as u8;
        assert((0u8 >> ku) & 1u8 == 0u8) by (bit_vector);
    }
}

/// Splitting an LCD row number into its bank (`y >> 3`) and the bit inside
/// the bank (`y - (bank << 3)`) is division and remainder by eight.
pub proof fn lemma_bank_split(y: u8)
    ensures
        y >> 3u8 == y / 8,
        (y >> 3u8) << 3u8 <= y,
        y - ((y >> 3u8) << 3u8) == y % 8,
{
    assert(y >> 3u8 == y / 8 && (y >> 3u8) << 3u8 <= y && y - ((y >> 3u8) << 3u8) == y % 8)
        by (bit_vector);
}

/// Testing a byte against the one-bit mask `1 << o` reads bit `o`.
pub proof fn lemma_mask_test(b: u8, o: u8)
    requires
        o < 8,
    ensures
        (b & (1u8 << o) != 0) == bit8(b, o as int),
{
    assert((b & (1u8 << o) != 0) == ((b >> o) & 1u8 == 1u8)) by (bit_vector)
        requires
            o < 8u8,
    ;
}

/// Testing a word against the one-bit mask `1 << o` reads bit `o`.
pub proof fn lemma_mask_test64(w: u64, o: u64)
    requires
        o < 64,
    ensures
        (w & (1u64 << o) != 0) == bit64(w, o as int),
{
    assert((w & (1u64 << o) != 0) == ((w >> o) & 1u64 == 1u64)) by (bit_vector)
        requires
            o < 64u64,
    ;
}

/// Shifting a one-bit mask right by one moves the bit down by one, and drops
/// it when it was the lowest.
pub proof fn lemma_mask_shift_down(o: u64)
    requires
        o < 64,
    ensures
        o >= 1 ==> (1u64 << o) >> 1u64 == 1u64 << ((o - 1) as u64),
        o == 0 ==> (1u64 << o) >> 1u64 == 0,
        0u64 >> 1u64 == 0,
{
    if o >= 1 {
        let om1 = (o - 1) as u64;
        assert((1u64 << o) >> 1u64 == 1u64 << om1) by (bit_vector)
            requires
                o < 64u64,
                om1 + 1 == o,
        ;
    } else {
        assert((1u64 << 0u64) >> 1u64 == 0u64) by (bit_vector);
    }
    assert(0u64 >> 1u64 == 0u64) by (bit_vector);
}

/// Shifting a byte left by one and or-ing in a bit `p` puts `p` at bit zero;
/// a byte whose bits from `n` up are clear then has its bits from `n + 1` up
/// clear.
pub proof fn lemma_shift_in(s: u8, p: u8, n: u8)
    requires
        p <= 1,
        n < 8,
        s >> n == 0,
    ensures
        ((s << 1u8) | p) >> ((n + 1) as u8) == 0,
        bit8((s << 1u8) | p, 0) == (p == 1),
{
    let n1 = (n + 1) as u8;
    assert(((s << 1u8) | p) >> n1 == 0u8 && ((((s << 1u8) | p) >> 0u8) & 1u8 == 1u8) == (p == 1u8))
        by (bit_vector)
        requires
            p <= 1u8,
            n < 8u8,
            s >> n == 0u8,
            n1 == n + 1,
    ;
}

/// Shifting a byte left by one and or-ing in a bit moves bit `t` to bit `t + 1`.
pub proof fn lemma_shift_in_moves(s: u8, p: u8, t: int)
    requires
        p <= 1,
        0 <= t < 7,
    ensures
        bit8((s << 1u8) | p, t + 1) == bit8(s, t),
{
    let tu = t as u8;
    let tu1 = (t + 1) as u8;
    assert(((((s << 1u8) | p) >> tu1) & 1u8 == 1u8) == ((s >> tu) & 1u8 == 1u8)) by (bit_vector)
        requires
            p <= 1u8,
            tu < 7u8,
            tu1 == tu + 1,
    ;
}

/// The empty byte has no bit set from bit zero up.
pub proof fn lemma_zero_shift()
    ensures
        0u8 >> 0u8 == 0,
{
    assert(0u8 >> 0u8 == 0u8) by (bit_vector);
}

} // verus!
