use chirp8_avr::board::{draw_test_pattern_phase, redraw, tick, Board};
use chirp8_avr::geometry::xy_from_chirp8;

fn frame_of(board: &mut Board) -> [[u8; 6]; 84] {
    board.set_pixel(0, 0, board.get_pixel(0, 0));
    redraw(board).expect("a write marks the frame dirty")
}

#[test]
fn new_board_is_blank_and_clean() {
    let mut board = Board::new();
    assert!(redraw(&mut board).is_none());
    for x in 0..64u8 {
        for y in 0..32u8 {
            assert!(!board.get_pixel(x, y));
        }
    }
    assert_eq!(board.get_timer(), 0);
    assert!(board.keep_running());
}

#[test]
fn chip8_origin_maps_to_lcd_column_ten_row_eight() {
    assert_eq!(xy_from_chirp8(0, 0), (10, 8));
    assert_eq!(xy_from_chirp8(63, 31), (73, 39));
}

#[test]
fn set_pixel_sets_one_bit_of_one_byte() {
    let mut board = Board::new();
    board.set_pixel(0, 0, true);
    let frame = redraw(&mut board).expect("dirty after a write");
    for x in 0..84 {
        for b in 0..6 {
            let expected = if x == 10 && b == 1 { 0x01 } else { 0x00 };
            assert_eq!(frame[x][b], expected);
        }
    }
    board.set_pixel(5, 13, true);
    let frame = redraw(&mut board).expect("dirty after a write");
    // LCD (15, 21): bank 2, bit 5.
    assert_eq!(frame[15][2], 0x20);
    assert_eq!(frame[10][1], 0x01);
}

#[test]
fn read_back_after_write() {
    let mut board = Board::new();
    board.set_pixel(7, 9, true);
    assert!(board.get_pixel(7, 9));
    assert!(!board.get_pixel(7, 8));
    assert!(!board.get_pixel(7, 10));
    assert!(!board.get_pixel(6, 9));
    board.set_pixel(7, 9, false);
    assert!(!board.get_pixel(7, 9));
}

#[test]
fn writing_same_value_keeps_frame() {
    let mut board = Board::new();
    board.set_pixel(3, 3, true);
    let before = frame_of(&mut board);
    board.set_pixel(3, 3, true);
    let after = redraw(&mut board).expect("a write marks the frame dirty");
    assert_eq!(before, after);
}

#[test]
fn writes_to_different_pixels_commute() {
    let mut a = Board::new();
    a.set_pixel(1, 2, true);
    a.set_pixel(1, 3, true);
    a.set_pixel(1, 2, false);
    let mut b = Board::new();
    b.set_pixel(1, 3, true);
    let fa = redraw(&mut a).unwrap();
    let fb = redraw(&mut b).unwrap();
    assert_eq!(fa, fb);
}

#[test]
fn clear_pixels_blanks_and_marks_dirty() {
    let mut board = Board::new();
    board.set_pixel(10, 10, true);
    board.set_pixel(63, 31, true);
    let _ = redraw(&mut board);
    board.clear_pixels();
    let frame = redraw(&mut board).expect("clearing marks the frame dirty");
    assert_eq!(frame, [[0u8; 6]; 84]);
    assert!(!board.get_pixel(10, 10));
    assert!(!board.get_pixel(63, 31));
}

#[test]
fn redraw_hands_out_a_frame_once() {
    let mut board = Board::new();
    board.set_pixel(2, 2, true);
    assert!(redraw(&mut board).is_some());
    assert!(redraw(&mut board).is_none());
}

#[test]
fn tick_counts_down_to_zero_and_redraws() {
    let mut board = Board::new();
    board.set_timer(3);
    assert_eq!(board.get_timer(), 3);
    board.set_pixel(0, 0, true);
    let sent = tick(&mut board);
    assert!(sent.is_some());
    assert_eq!(board.get_timer(), 2);
    assert!(tick(&mut board).is_none());
    assert_eq!(board.get_timer(), 1);
    for _ in 0..5 {
        tick(&mut board);
    }
    assert_eq!(board.get_timer(), 0);
}

#[test]
fn no_sound_no_randomness() {
    let mut board = Board::new();
    board.set_sound(7);
    board.redraw();
    assert_eq!(board.get_random(), 0x42);
    assert_eq!(board.get_random(), 0x42);
    assert!(redraw(&mut board).is_none());
}

#[test]
fn test_pattern_draws_both_diagonals() {
    let mut board = Board::new();
    draw_test_pattern_phase(&mut board, true);
    for i in 0..32u8 {
        assert!(board.get_pixel(16 + i, i));
        assert!(!board.get_pixel(16 + i, 31 - i));
    }
    assert!(!board.get_pixel(0, 0));
    assert!(!board.get_pixel(15, 0));
    assert!(!board.get_pixel(48, 31));
    draw_test_pattern_phase(&mut board, false);
    for i in 0..32u8 {
        assert!(!board.get_pixel(16 + i, i));
        assert!(board.get_pixel(16 + i, 31 - i));
    }
    board.clear_pixels();
    for i in 0..32u8 {
        assert!(!board.get_pixel(16 + i, 31 - i));
    }
}
