use tinkerbell::crc::crc8;
use tinkerbell::sensor::{
    decode_temperature, read_scratchpad, read_commands, start_commands, SensorError, Temperature,
    CONVERT_T, READ_SCRATCHPAD, SKIP_ROM,
};

fn valid_scratchpad(lsb: u8, msb: u8) -> [u8; 9] {
    let mut data = [lsb, msb, 0x4B, 0x46, 0x7F, 0xFF, 0x0C, 0x10, 0x00];
    data[8] = crc8(&data[0..8]);
    data
}

#[test]
fn crc8_of_empty_input_is_zero() {
    assert_eq!(crc8(&[]), 0);
}

#[test]
fn crc8_of_single_byte_one() {
    assert_eq!(crc8(&[0x01]), 0x5E);
}

#[test]
fn crc8_check_value() {
    assert_eq!(crc8(b"123456789"), 0xA1);
}

#[test]
fn crc8_self_check_on_appended_checksum() {
    let data = valid_scratchpad(0x50, 0x05);
    assert_eq!(crc8(&data), 0);
    let other = valid_scratchpad(0x8E, 0xFF);
    assert_eq!(crc8(&other), 0);
}

#[test]
fn crc8_detects_every_single_bit_flip() {
    let data = valid_scratchpad(0x50, 0x05);
    for j in 0..9 {
        for k in 0..8 {
            let mut corrupt = data;
            corrupt[j] ^= 1u8 << k;
            assert_ne!(crc8(&corrupt), 0, "flip of bit {} in byte {} slipped through", k, j);
        }
    }
}

#[test]
fn command_bytes_are_broadcast_then_operation() {
    assert_eq!(start_commands(), [SKIP_ROM, CONVERT_T]);
    assert_eq!(start_commands(), [0xCC, 0x44]);
    assert_eq!(read_commands(), [SKIP_ROM, READ_SCRATCHPAD]);
    assert_eq!(read_commands(), [0xCC, 0xBE]);
}

#[test]
fn decode_positive_reading() {
    let t = decode_temperature(0x50, 0x05);
    assert_eq!(t.raw, 1360);
    assert_eq!(t.raw as f32 / 16.0, 85.0);
}

#[test]
fn decode_smallest_negative_reading() {
    let t = decode_temperature(0xFF, 0xFF);
    assert_eq!(t.raw, -1);
    assert_eq!(t.raw as f32 / 16.0, -0.0625);
}

#[test]
fn decode_negative_reading() {
    let t = decode_temperature(0x8E, 0xFF);
    assert_eq!(t.raw, -114);
    assert_eq!(t.raw as f32 / 16.0, -7.125);
}

#[test]
fn read_scratchpad_accepts_valid_reading() {
    let data = valid_scratchpad(0x50, 0x05);
    assert_eq!(read_scratchpad(&data), Ok(Temperature { raw: 1360 }));
}

#[test]
fn read_scratchpad_rejects_bad_checksum() {
    let mut data = valid_scratchpad(0x50, 0x05);
    data[8] ^= 0x01;
    assert_eq!(read_scratchpad(&data), Err(SensorError::ChecksumMismatch));
    let all_ones = [0xFFu8; 9];
    assert_eq!(read_scratchpad(&all_ones), Err(SensorError::ChecksumMismatch));
}
