//! Byte reader tests: little-endian reads, variable-width lengths, strings,
//! markers, and every error.

use envtool::reader::{ReadError, Reader};

#[test]
fn reads_little_endian_values() {
    let data: [u8; 13] = [0x01, 0x02, 0x03, 0x04, 0xFF, 0xFE, 0x78, 0x56, 0x34, 0x12, 0x00, 0x01, 0x00];
    let mut r = Reader::new(&data);
    assert_eq!(r.read_u8().unwrap(), 0x01);
    assert_eq!(r.position(), 1);
    assert_eq!(r.read_u16().unwrap(), 0x0302);
    assert_eq!(r.read_i16().unwrap(), i16::from_le_bytes([0x04, 0xFF]));
    assert_eq!(r.read_u32().unwrap(), 0x345678FE);
    assert_eq!(r.read_i32().unwrap(), i32::from_le_bytes([0x12, 0x00, 0x01, 0x00]));
    assert_eq!(r.read_i32().unwrap_err(), ReadError::OutOfRange);
}

#[test]
fn reads_bools() {
    let data: [u8; 3] = [0, 1, 7];
    let mut r = Reader::new(&data);
    assert_eq!(r.read_bool().unwrap(), false);
    assert_eq!(r.read_bool().unwrap(), true);
    assert_eq!(r.read_bool().unwrap_err(), ReadError::InvalidBool { position: 2, value: 7 });
    // the failed read does not move
    assert_eq!(r.position(), 2);
}

#[test]
fn reads_lengths() {
    let short: [u8; 1] = [42];
    let mut r = Reader::new(&short);
    assert_eq!(r.read_length().unwrap(), 42);

    let long: [u8; 5] = [0xFF, 0x01, 0x02, 0x00, 0x00];
    let mut r = Reader::new(&long);
    assert_eq!(r.read_length().unwrap(), 0x0201);
    assert_eq!(r.position(), 5);

    let truncated: [u8; 2] = [0xFF, 0x01];
    let mut r = Reader::new(&truncated);
    assert_eq!(r.read_length().unwrap_err(), ReadError::OutOfRange);
}

#[test]
fn reads_strings() {
    let data: [u8; 6] = [5, b'h', b'e', b'l', b'l', b'o'];
    let mut r = Reader::new(&data);
    assert_eq!(r.read_str().unwrap(), "hello");
    assert_eq!(r.position(), 6);

    let bad: [u8; 3] = [2, 0xFF, 0xFF];
    let mut r = Reader::new(&bad);
    assert_eq!(r.read_str().unwrap_err(), ReadError::InvalidString);

    let short: [u8; 2] = [9, b'x'];
    let mut r = Reader::new(&short);
    assert_eq!(r.read_str().unwrap_err(), ReadError::OutOfRange);
}

#[test]
fn expects_markers() {
    let data: [u8; 3] = [0x20, 0x21, 0x22];
    let mut r = Reader::new(&data);
    assert!(r.expect(0x20).is_ok());
    assert_eq!(
        r.expect(0x99).unwrap_err(),
        ReadError::UnexpectedByte { position: 1, expected: 0x99, actual: 0x21 },
    );
    // the mismatching byte is consumed, as the position shows
    assert_eq!(r.position(), 2);
}

#[test]
fn positions_and_skips() {
    let data: [u8; 4] = [1, 2, 3, 4];
    let mut r = Reader::new(&data);
    assert!(r.skip(2).is_ok());
    assert_eq!(r.position(), 2);
    // a skip may not leave the buffer, not even to its very end
    assert_eq!(r.skip(2).unwrap_err(), ReadError::OutOfRange);
    assert!(r.set_position(1).is_ok());
    assert_eq!(r.read_u8().unwrap(), 2);
    assert_eq!(r.set_position(4).unwrap_err(), ReadError::OutOfRange);
}

#[test]
fn conditional_width_read() {
    let data: [u8; 3] = [0x07, 0x01, 0x02];
    let mut r = Reader::new(&data);
    assert_eq!(r.read_u16_unless_then_u8(true).unwrap(), 7);
    assert_eq!(r.read_u16_unless_then_u8(false).unwrap(), 0x0201);
    assert_eq!(r.read_u16_unless_then_u8(false).unwrap_err(), ReadError::OutOfRange);
}
