use chirp8_avr::board::{redraw, Board};
use chirp8_avr::framebuffer::{FBIter, FRAME_BYTES};
use chirp8_avr::pcd8544::frame_data;

#[test]
fn empty_screen_walks_to_zero_bytes() {
    let data = [0u64; 32];
    let mut it = FBIter::new(&data);
    let bytes = it.remaining_bytes();
    assert_eq!(bytes.len(), FRAME_BYTES);
    assert!(bytes.iter().all(|b| *b == 0));
    assert_eq!(it.next(), None);
}

#[test]
fn top_left_pixel_lands_in_column_ten_bank_one() {
    let mut data = [0u64; 32];
    data[0] = 1 << 63;
    let bytes = FBIter::new(&data).remaining_bytes();
    for (k, b) in bytes.iter().enumerate() {
        let expected = if k == 10 * 6 + 1 { 0x01 } else { 0x00 };
        assert_eq!(*b, expected, "byte {}", k);
    }
}

#[test]
fn bottom_right_pixel_lands_in_column_seventy_three_bank_four() {
    let mut data = [0u64; 32];
    data[31] = 1;
    let bytes = FBIter::new(&data).remaining_bytes();
    assert_eq!(bytes[73 * 6 + 4], 0x80);
    assert_eq!(bytes.iter().filter(|b| **b != 0).count(), 1);
}

#[test]
fn next_stops_after_the_frame() {
    let data = [u64::MAX; 32];
    let mut it = FBIter::new(&data);
    let mut n = 0;
    while let Some(b) = it.next() {
        let x = n / 6;
        let bank = n % 6;
        let inside = (10..74).contains(&x) && (1..5).contains(&bank);
        assert_eq!(b, if inside { 0xff } else { 0x00 });
        n += 1;
    }
    assert_eq!(n, FRAME_BYTES);
    assert_eq!(it.next(), None);
}

#[test]
fn walk_agrees_with_frame_buffer() {
    let mut data = [0u64; 32];
    let mut board = Board::new();
    let points = [(0u8, 0u8), (5, 3), (63, 31), (17, 12), (40, 25), (31, 8), (31, 7)];
    for (x, y) in points {
        data[y as usize] |= 1u64 << (63 - x);
        board.set_pixel(x, y, true);
    }
    let frame = redraw(&mut board).unwrap();
    let sent = frame_data(&frame);
    let walked = FBIter::new(&data).remaining_bytes();
    assert_eq!(sent, walked);
}
