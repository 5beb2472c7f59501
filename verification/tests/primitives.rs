use sprite_chunks::cursor::ByteCursor;
use sprite_chunks::error::CodecError;
use sprite_chunks::fixed_point::U16F16;
use sprite_chunks::helpers::{
    read_bytes, read_fixed_point_number_16_16, read_string, read_u16, read_u32, write_bytes,
    write_fixed_point_number_16_16, write_string, write_u16, write_u32,
};

fn cursor_at(bytes: Vec<u8>, position: usize) -> ByteCursor {
    let mut cursor = ByteCursor::new(bytes);
    cursor.position = position;
    cursor
}

#[test]
fn new_cursor_starts_at_zero() {
    let cursor = ByteCursor::new(vec![1, 2, 3]);
    assert_eq!(cursor.position, 0);
    assert_eq!(cursor.bytes, vec![1, 2, 3]);
    assert_eq!(cursor.remaining(), 3);
}

#[test]
fn remaining_is_zero_past_the_end() {
    assert_eq!(cursor_at(vec![1, 2, 3], 3).remaining(), 0);
    assert_eq!(cursor_at(vec![1, 2, 3], 10).remaining(), 0);
    assert_eq!(cursor_at(vec![1, 2, 3], 1).remaining(), 2);
}

#[test]
fn skip_may_pass_the_end() {
    let mut cursor = ByteCursor::new(vec![1, 2, 3]);
    assert_eq!(cursor.skip(8), Ok(()));
    assert_eq!(cursor.position, 8);
    assert_eq!(cursor.bytes, vec![1, 2, 3]);
}

#[test]
fn skip_fails_when_no_position_is_left() {
    let mut cursor = cursor_at(vec![1, 2, 3], usize::MAX - 3);
    assert_eq!(cursor.skip(4), Err(CodecError::InvalidSeek));
    assert_eq!(cursor.position, usize::MAX - 3);
    assert_eq!(cursor.skip(3), Ok(()));
    assert_eq!(cursor.position, usize::MAX);
}

#[test]
fn skip_within_stays_in_the_buffer() {
    let mut cursor = cursor_at(vec![1, 2, 3, 4], 1);
    assert_eq!(cursor.skip_within(4), Err(CodecError::WriteZero));
    assert_eq!(cursor.position, 1);
    assert_eq!(cursor.skip_within(3), Ok(()));
    assert_eq!(cursor.position, 4);
    assert_eq!(cursor.skip_within(0), Ok(()));
    assert_eq!(cursor.bytes, vec![1, 2, 3, 4]);
}

#[test]
fn read_bytes_takes_exactly_the_length() {
    let mut cursor = cursor_at(vec![10, 11, 12, 13, 14], 1);
    assert_eq!(read_bytes(&mut cursor, 3), Ok(vec![11, 12, 13]));
    assert_eq!(cursor.position, 4);
    assert_eq!(read_bytes(&mut cursor, 1), Ok(vec![14]));
    assert_eq!(cursor.position, 5);
    assert_eq!(cursor.bytes, vec![10, 11, 12, 13, 14]);
}

#[test]
fn read_bytes_fails_on_short_input() {
    let mut cursor = cursor_at(vec![10, 11, 12], 1);
    assert_eq!(read_bytes(&mut cursor, 3), Err(CodecError::UnexpectedEof));
    assert_eq!(cursor.position, 1);
}

#[test]
fn read_bytes_of_nothing_always_succeeds() {
    let mut cursor = cursor_at(vec![10, 11, 12], 3);
    assert_eq!(read_bytes(&mut cursor, 0), Ok(vec![]));
    assert_eq!(cursor.position, 3);
    let mut cursor = cursor_at(vec![10, 11, 12], 7);
    assert_eq!(read_bytes(&mut cursor, 0), Ok(vec![]));
    assert_eq!(cursor.position, 7);
    assert_eq!(read_bytes(&mut cursor, 1), Err(CodecError::UnexpectedEof));
}

#[test]
fn read_u16_is_little_endian() {
    let mut cursor = cursor_at(vec![0xff, 0x34, 0x12, 0xff], 1);
    assert_eq!(read_u16(&mut cursor), Ok(0x1234));
    assert_eq!(cursor.position, 3);
    assert_eq!(read_u16(&mut cursor), Err(CodecError::UnexpectedEof));
    assert_eq!(cursor.position, 3);
}

#[test]
fn read_u32_is_little_endian() {
    let mut cursor = cursor_at(vec![0xff, 0x78, 0x56, 0x34, 0x12, 0xff], 1);
    assert_eq!(read_u32(&mut cursor), Ok(0x1234_5678));
    assert_eq!(cursor.position, 5);
    assert_eq!(read_u32(&mut cursor), Err(CodecError::UnexpectedEof));
    assert_eq!(cursor.position, 5);
}

#[test]
fn read_u32_reads_the_largest_number() {
    let mut cursor = ByteCursor::new(vec![0xff, 0xff, 0xff, 0xff]);
    assert_eq!(read_u32(&mut cursor), Ok(u32::MAX));
    let mut cursor = ByteCursor::new(vec![0xff, 0xff]);
    assert_eq!(read_u16(&mut cursor), Ok(u16::MAX));
}

#[test]
fn write_bytes_replaces_and_keeps_the_length() {
    let mut cursor = cursor_at(vec![0, 1, 2, 3, 4, 5], 2);
    assert_eq!(write_bytes(&mut cursor, &[9, 8, 7]), Ok(()));
    assert_eq!(cursor.bytes, vec![0, 1, 9, 8, 7, 5]);
    assert_eq!(cursor.position, 5);
}

#[test]
fn write_bytes_fails_without_room_and_writes_nothing() {
    let mut cursor = cursor_at(vec![0, 1, 2, 3], 2);
    assert_eq!(write_bytes(&mut cursor, &[9, 8, 7]), Err(CodecError::WriteZero));
    assert_eq!(cursor.bytes, vec![0, 1, 2, 3]);
    assert_eq!(cursor.position, 2);
}

#[test]
fn write_bytes_of_nothing_always_succeeds() {
    let mut cursor = cursor_at(vec![0, 1], 5);
    assert_eq!(write_bytes(&mut cursor, &[]), Ok(()));
    assert_eq!(cursor.bytes, vec![0, 1]);
    assert_eq!(cursor.position, 5);
}

#[test]
fn write_u16_is_little_endian() {
    let mut cursor = cursor_at(vec![0xaa; 4], 1);
    assert_eq!(write_u16(&mut cursor, 0x1234), Ok(()));
    assert_eq!(cursor.bytes, vec![0xaa, 0x34, 0x12, 0xaa]);
    assert_eq!(cursor.position, 3);
    assert_eq!(write_u16(&mut cursor, 1), Err(CodecError::WriteZero));
    assert_eq!(cursor.bytes, vec![0xaa, 0x34, 0x12, 0xaa]);
}

#[test]
fn write_u32_is_little_endian() {
    let mut cursor = cursor_at(vec![0xaa; 6], 1);
    assert_eq!(write_u32(&mut cursor, 0x1234_5678), Ok(()));
    assert_eq!(cursor.bytes, vec![0xaa, 0x78, 0x56, 0x34, 0x12, 0xaa]);
    assert_eq!(cursor.position, 5);
    assert_eq!(write_u32(&mut cursor, 1), Err(CodecError::WriteZero));
    assert_eq!(cursor.position, 5);
}

#[test]
fn integers_written_are_read_back() {
    for n in [0u32, 1, 0xff, 0x100, 0xffff, 0x1_0000, 0x00ff_ffff, 0x0100_0000, u32::MAX] {
        let mut cursor = ByteCursor::new(vec![0; 4]);
        assert_eq!(write_u32(&mut cursor, n), Ok(()));
        cursor.position = 0;
        assert_eq!(read_u32(&mut cursor), Ok(n));
    }
    for n in [0u16, 1, 0xff, 0x100, 0x8000, u16::MAX] {
        let mut cursor = ByteCursor::new(vec![0; 2]);
        assert_eq!(write_u16(&mut cursor, n), Ok(()));
        cursor.position = 0;
        assert_eq!(read_u16(&mut cursor), Ok(n));
    }
}

#[test]
fn fixed_point_keeps_its_bits() {
    for bits in [0u32, 1, 0x8000, 0x1_0000, 0xdead_beef, u32::MAX] {
        assert_eq!(U16F16::from_bits(bits).to_bits(), bits);
        assert_eq!(U16F16::from_bits(bits), U16F16 { bits });
    }
}

#[test]
fn fixed_point_is_four_raw_bytes() {
    let mut cursor = ByteCursor::new(vec![0x00, 0x80, 0x01, 0x00, 0xff]);
    assert_eq!(read_fixed_point_number_16_16(&mut cursor), Ok(U16F16 { bits: 0x0001_8000 }));
    assert_eq!(cursor.position, 4);
    assert_eq!(read_fixed_point_number_16_16(&mut cursor), Err(CodecError::UnexpectedEof));
    assert_eq!(cursor.position, 4);

    let mut cursor = cursor_at(vec![0xaa; 5], 1);
    let number = U16F16::from_bits(0x0002_4000);
    assert_eq!(write_fixed_point_number_16_16(&mut cursor, &number), Ok(()));
    assert_eq!(cursor.bytes, vec![0xaa, 0x00, 0x40, 0x02, 0x00]);
    assert_eq!(cursor.position, 5);
    cursor.position = 2;
    assert_eq!(write_fixed_point_number_16_16(&mut cursor, &number), Err(CodecError::WriteZero));
    assert_eq!(cursor.bytes, vec![0xaa, 0x00, 0x40, 0x02, 0x00]);
}

#[test]
fn fixed_point_bits_are_a_ratio() {
    let mut cursor = ByteCursor::new(vec![0x00, 0x00, 0x01, 0x00, 0x00, 0x80, 0x00, 0x00]);
    let one = read_fixed_point_number_16_16(&mut cursor).unwrap();
    let half = read_fixed_point_number_16_16(&mut cursor).unwrap();
    assert_eq!(one.to_bits(), 0x0001_0000);
    assert_eq!(half.to_bits(), 0x0000_8000);
    assert_eq!(fixed::types::U16F16::from_bits(one.to_bits()).to_num::<f32>(), 1.0);
    assert_eq!(fixed::types::U16F16::from_bits(half.to_bits()).to_num::<f32>(), 0.5);
}

#[test]
fn read_string_takes_length_then_text() {
    let mut cursor = ByteCursor::new(vec![5, 0, b'h', b'e', b'l', b'l', b'o', b'!']);
    assert_eq!(read_string(&mut cursor), Ok(String::from("hello")));
    assert_eq!(cursor.position, 7);
}

#[test]
fn read_string_reads_utf8() {
    let mut cursor = ByteCursor::new(vec![0xff, 3, 0, 0xe2, 0x82, 0xac]);
    cursor.position = 1;
    assert_eq!(read_string(&mut cursor), Ok(String::from("\u{20ac}")));
    assert_eq!(cursor.position, 6);
}

#[test]
fn read_string_of_no_bytes_is_empty() {
    let mut cursor = ByteCursor::new(vec![0, 0]);
    assert_eq!(read_string(&mut cursor), Ok(String::new()));
    assert_eq!(cursor.position, 2);
}

#[test]
fn read_string_rejects_invalid_utf8() {
    let mut cursor = ByteCursor::new(vec![2, 0, 0xc3, 0x28]);
    assert_eq!(read_string(&mut cursor), Err(CodecError::InvalidUtf8));
    assert_eq!(cursor.position, 0);
    let mut cursor = ByteCursor::new(vec![1, 0, 0xff]);
    assert_eq!(read_string(&mut cursor), Err(CodecError::InvalidUtf8));
}

#[test]
fn read_string_fails_on_short_input() {
    let mut cursor = ByteCursor::new(vec![5]);
    assert_eq!(read_string(&mut cursor), Err(CodecError::UnexpectedEof));
    assert_eq!(cursor.position, 0);
    let mut cursor = ByteCursor::new(vec![5, 0, b'h', b'e']);
    assert_eq!(read_string(&mut cursor), Err(CodecError::UnexpectedEof));
    assert_eq!(cursor.position, 0);
}

#[test]
fn write_string_puts_length_then_text() {
    let mut cursor = cursor_at(vec![0xaa; 10], 1);
    assert_eq!(write_string(&mut cursor, "h\u{e9}llo"), Ok(()));
    assert_eq!(cursor.bytes, vec![0xaa, 6, 0, b'h', 0xc3, 0xa9, b'l', b'l', b'o', 0xaa]);
    assert_eq!(cursor.position, 9);
}

#[test]
fn write_string_accepts_the_longest_string() {
    let text = "a".repeat(65535);
    let mut cursor = ByteCursor::new(vec![0; 65537]);
    assert_eq!(write_string(&mut cursor, &text), Ok(()));
    assert_eq!(cursor.position, 65537);
    assert_eq!(cursor.bytes[0], 0xff);
    assert_eq!(cursor.bytes[1], 0xff);
    cursor.position = 0;
    assert_eq!(read_string(&mut cursor), Ok(text));
}

#[test]
fn write_string_rejects_a_string_too_long() {
    let text = "a".repeat(65536);
    let mut cursor = ByteCursor::new(vec![0; 70000]);
    assert_eq!(write_string(&mut cursor, &text), Err(CodecError::StringTooLong));
    assert_eq!(cursor.position, 0);
    assert!(cursor.bytes.iter().all(|b| *b == 0));
}

#[test]
fn write_string_fails_without_room_and_writes_nothing() {
    let mut cursor = ByteCursor::new(vec![0xaa; 4]);
    assert_eq!(write_string(&mut cursor, "abc"), Err(CodecError::WriteZero));
    assert_eq!(cursor.bytes, vec![0xaa; 4]);
    assert_eq!(cursor.position, 0);
}

#[test]
fn strings_written_are_read_back() {
    for text in ["", "a", "sprite layer", "\u{1f3a8} palette", "\u{0}"] {
        let mut cursor = cursor_at(vec![0x55; 40], 3);
        assert_eq!(write_string(&mut cursor, text), Ok(()));
        assert_eq!(cursor.position, 3 + 2 + text.len());
        cursor.position = 3;
        assert_eq!(read_string(&mut cursor), Ok(String::from(text)));
        assert_eq!(cursor.position, 3 + 2 + text.len());
    }
}
