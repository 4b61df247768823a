use sqlite_parser::be::be_parser;
use sqlite_parser::errors::DecodeError;
use sqlite_parser::varint::{varint_encode, varint_parser};

fn round_trip(v: u64, expected_len: usize) {
    let enc = varint_encode(v);
    assert_eq!(enc.len(), expected_len);
    let (value, len) = varint_parser(&enc, 0).unwrap();
    assert_eq!(value, v);
    assert_eq!(len, enc.len());
}

#[test]
fn varint_round_trip_all_lengths() {
    round_trip(0, 1);
    round_trip(1, 1);
    round_trip(127, 1);
    round_trip(128, 2);
    round_trip(16383, 2);
    round_trip(16384, 3);
    round_trip(0x1f_ffff, 3);
    round_trip(0x20_0000, 4);
    round_trip(0xfff_ffff, 4);
    round_trip(0x1000_0000, 5);
    round_trip(0x7_ffff_ffff, 5);
    round_trip(0x8_0000_0000, 6);
    round_trip(0x3ff_ffff_ffff, 6);
    round_trip(0x400_0000_0000, 7);
    round_trip(0x1_ffff_ffff_ffff, 7);
    round_trip(0x2_0000_0000_0000, 8);
    round_trip(0xff_ffff_ffff_ffff, 8);
    round_trip(0x100_0000_0000_0000, 9);
    round_trip(u64::MAX, 9);
}

#[test]
fn varint_single_byte_value() {
    let (value, len) = varint_parser(&[0x2a], 0).unwrap();
    assert_eq!((value, len), (42, 1));
}

#[test]
fn varint_two_bytes_value() {
    // 0x81 0x01 = (1 << 7) | 1 = 129
    let (value, len) = varint_parser(&[0x81, 0x01], 0).unwrap();
    assert_eq!((value, len), (129, 2));
}

#[test]
fn varint_nine_byte_termination() {
    // All of the first 8 bytes have the continuation bit set, so the 9th
    // byte contributes all 8 of its bits and the length is 9.
    let bytes = [0x80, 0x80, 0x80, 0x80, 0x80, 0x80, 0x80, 0x80, 0xff];
    let (value, len) = varint_parser(&bytes, 0).unwrap();
    assert_eq!(len, 9);
    assert_eq!(value, 0xff);
}

#[test]
fn varint_length_is_nine_only_with_eight_continuations() {
    // A clear continuation bit anywhere in the first 8 bytes stops earlier.
    for n in 1..=8usize {
        let mut bytes = vec![0x80u8; n - 1];
        bytes.push(0x01);
        let (_, len) = varint_parser(&bytes, 0).unwrap();
        assert_eq!(len, n);
        assert!(len < 9);
    }
}

#[test]
fn varint_out_of_bounds() {
    assert_eq!(varint_parser(&[], 0), Err(DecodeError::OutOfBounds));
    assert_eq!(varint_parser(&[0x80], 0), Err(DecodeError::OutOfBounds));
    assert_eq!(varint_parser(&[0x80; 8], 0), Err(DecodeError::OutOfBounds));
    assert_eq!(varint_parser(&[0x05], 1), Err(DecodeError::OutOfBounds));
}

#[test]
fn varint_at_cursor() {
    let (value, len) = varint_parser(&[0xff, 0xff, 0x07], 2).unwrap();
    assert_eq!((value, len), (7, 1));
}

#[test]
fn be_parser_matches_power_sum() {
    assert_eq!(be_parser(&[0x00]), 0);
    assert_eq!(be_parser(&[0xab]), 0xab);
    assert_eq!(be_parser(&[0x12, 0x34]), 0x12 * 256 + 0x34);
    assert_eq!(be_parser(&[0x01, 0x02, 0x03]), 0x01 * 65536 + 0x02 * 256 + 0x03);
    assert_eq!(
        be_parser(&[0xff, 0xff, 0xff, 0xff, 0xff, 0xff, 0xff, 0xff]),
        u64::MAX
    );
    assert_eq!(
        be_parser(&[0x01, 0x00, 0x00, 0x00, 0x00, 0x00, 0x00, 0x00]),
        1 << 56
    );
}
