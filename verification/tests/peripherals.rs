use chirp8_avr::keypad::{
    decode_row, keys_from_rows, row_strobe, Debouncer, StrobeLine, SETTLE_READINGS,
};
use chirp8_avr::pcd8544::{frame_commands, frame_data, setup_commands};
use chirp8_avr::rom::{load_address, FONT_START, PROGRAM_START};
use chirp8_avr::serial_ram::{read_command, read_reply, setup_command, write_command};
use chirp8_avr::timer::{clock_settings, sleep_inner_iterations, timer_compare_value};

#[test]
fn keys_follow_the_keypad_layout() {
    assert_eq!(keys_from_rows([0, 0, 0, 0]), 0);
    assert_eq!(keys_from_rows([0x0f, 0x0f, 0x0f, 0x0f]), 0xffff);
    // Row 3, column 1 is key 0.
    assert_eq!(keys_from_rows([0, 0, 0, 0b0010]), 0x0001);
    // Row 0, column 0 is key 1.
    assert_eq!(keys_from_rows([0b0001, 0, 0, 0]), 0x0002);
    // Row 0, column 3 is key C.
    assert_eq!(keys_from_rows([0b1000, 0, 0, 0]), 0x1000);
    // Row 3, column 0 is key A; row 3, column 2 is key B.
    assert_eq!(keys_from_rows([0, 0, 0, 0b0101]), 0x0c00);
    // Row 2 is keys 7, 8, 9 and E.
    assert_eq!(keys_from_rows([0, 0, 0x0f, 0]), 0x4380);
    // Bits above column 3 are not keys.
    assert_eq!(keys_from_rows([0xf0, 0xf0, 0xf0, 0xf0]), 0);
}

#[test]
fn decode_row_reads_pins_five_to_two() {
    assert_eq!(decode_row(0x00), 0x0);
    assert_eq!(decode_row(0b0010_0000), 0b0001);
    assert_eq!(decode_row(0b0001_0000), 0b0010);
    assert_eq!(decode_row(0b0000_1000), 0b0100);
    assert_eq!(decode_row(0b0000_0100), 0b1000);
    assert_eq!(decode_row(0b1100_0011), 0x0);
    assert_eq!(decode_row(0xff), 0xf);
}

#[test]
fn row_strobes() {
    assert_eq!(row_strobe(0), Some(StrobeLine::C1));
    assert_eq!(row_strobe(1), Some(StrobeLine::C0));
    assert_eq!(row_strobe(2), Some(StrobeLine::B2));
    assert_eq!(row_strobe(3), Some(StrobeLine::B1));
    assert_eq!(row_strobe(4), None);
}

#[test]
fn debouncer_settles_after_twenty_matching_readings() {
    let mut d = Debouncer::new();
    let mut fed = 0;
    while !d.settled() {
        d.feed(0x3c);
        fed += 1;
    }
    // The first reading is compared with the fresh zero and does not match.
    assert_eq!(fed, 21);
    assert_eq!(d.reading(), 0x3c);
    assert_eq!(SETTLE_READINGS, 20);
}

#[test]
fn debouncer_restarts_on_a_change() {
    let mut d = Debouncer::new();
    for _ in 0..10 {
        d.feed(0);
    }
    d.feed(4);
    assert!(!d.settled());
    let mut fed = 0;
    while !d.settled() {
        d.feed(4);
        fed += 1;
    }
    assert_eq!(fed, 20);
    assert_eq!(d.reading(), 4);
}

#[test]
fn ram_commands() {
    assert_eq!(setup_command(), [0x01, 0x00]);
    assert_eq!(write_command(0x1234, 0xab), [0x02, 0x12, 0x34, 0xab]);
    assert_eq!(read_command(0x0200), [0x03, 0x02, 0x00, 0x00]);
    assert_eq!(read_command(0xffff), [0x03, 0xff, 0xff, 0x00]);
    assert_eq!(read_reply([0xff, 0xff, 0xff, 0x5a]), 0x5a);
}

#[test]
fn lcd_commands() {
    assert_eq!(setup_commands(), [0x21, 0x14, 0xbc, 0x22, 0x0c]);
    assert_eq!(frame_commands(), [0x22, 0x80, 0x40]);
}

#[test]
fn frame_data_is_column_major() {
    let mut frame = [[0u8; 6]; 84];
    frame[0][5] = 1;
    frame[1][0] = 2;
    frame[83][5] = 3;
    let data = frame_data(&frame);
    assert_eq!(data.len(), 504);
    assert_eq!(data[5], 1);
    assert_eq!(data[6], 2);
    assert_eq!(data[503], 3);
}

#[test]
fn timer_values() {
    assert_eq!(timer_compare_value(16_000_000), 4166);
    assert_eq!(timer_compare_value(8_000_000), 2083);
    assert_eq!(sleep_inner_iterations(16_000_000), 2666);
    assert_eq!(sleep_inner_iterations(8_000_000), 1333);
    // Cycles per millisecond are cut to 16 bits: 70000 becomes 4464.
    assert_eq!(sleep_inner_iterations(70_000_000), 744);
    // The compare value is cut to 16 bits: 1118481 becomes 4369.
    assert_eq!(timer_compare_value(u32::MAX), 4369);
}

#[test]
fn clock_settings_follow_the_cpu_clock() {
    let s = clock_settings();
    assert_eq!(s.timer_compare, timer_compare_value(s.cpu_frequency_hz));
    assert_eq!(s.sleep_inner_iterations, sleep_inner_iterations(s.cpu_frequency_hz));
    // Off AVR the clock is taken to be 16 MHz.
    assert_eq!(s.cpu_frequency_hz, 16_000_000);
    assert_eq!(s.timer_compare, 4166);
}

#[test]
fn rom_addresses() {
    assert_eq!(load_address(FONT_START, 0), 0x0000);
    assert_eq!(load_address(FONT_START, 79), 79);
    assert_eq!(load_address(PROGRAM_START, 0), 0x0200);
    assert_eq!(load_address(PROGRAM_START, 0x10), 0x0210);
}
