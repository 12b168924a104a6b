use bytes::Bytes;
use deuce::reader::{ByteReader, DecodeError};
use deuce::writer::ByteWriter;

fn reader(bytes: &[u8]) -> ByteReader {
    ByteReader::from(Bytes::from(bytes.to_vec()))
}

#[test]
fn remaining_counts_what_is_left() {
    let mut r = reader(&[1, 2, 3]);
    assert_eq!(r.remaining(), 3);
    r.read_u8().unwrap();
    assert_eq!(r.remaining(), 2);
}

#[test]
fn read_u8_takes_one_byte() {
    let mut r = reader(&[0xAB, 0xCD]);
    assert_eq!(r.read_u8().unwrap(), 0xAB);
    assert_eq!(r.read_u8().unwrap(), 0xCD);
    assert!(matches!(r.read_u8(), Err(DecodeError::UnexpectedEof)));
}

#[test]
fn read_u16_is_big_endian() {
    let mut r = reader(&[0x12, 0x34, 0x56]);
    assert_eq!(r.read_u16().unwrap(), 0x1234);
    assert!(matches!(r.read_u16(), Err(DecodeError::UnexpectedEof)));
    assert_eq!(r.remaining(), 1);
}

#[test]
fn read_u32_is_big_endian() {
    let mut r = reader(&[0x12, 0x34, 0x56, 0x78, 0x9A, 0xBC, 0xDE]);
    assert_eq!(r.read_u32().unwrap(), 0x1234_5678);
    assert!(matches!(r.read_u32(), Err(DecodeError::UnexpectedEof)));
    assert_eq!(r.remaining(), 3);
}

#[test]
fn read_bool_takes_any_nonzero_byte_as_true() {
    let mut r = reader(&[0, 1, 2, 0xFF]);
    assert_eq!(r.read_bool().unwrap(), false);
    assert_eq!(r.read_bool().unwrap(), true);
    assert_eq!(r.read_bool().unwrap(), true);
    assert_eq!(r.read_bool().unwrap(), true);
    assert!(matches!(r.read_bool(), Err(DecodeError::UnexpectedEof)));
}

#[test]
fn read_long_is_high_then_low() {
    let mut r = reader(&[0, 0, 0, 1, 0, 0, 0, 2, 9]);
    assert_eq!(r.read_long().unwrap(), (1, 2));
    assert_eq!(r.remaining(), 1);
}

#[test]
fn read_long_truncated_in_the_low_half() {
    let mut r = reader(&[0, 0, 0, 1, 0, 0]);
    assert!(matches!(r.read_long(), Err(DecodeError::UnexpectedEof)));
    assert_eq!(r.remaining(), 2);
}

#[test]
fn read_long_truncated_in_the_high_half() {
    let mut r = reader(&[0, 0, 0]);
    assert!(matches!(r.read_long(), Err(DecodeError::UnexpectedEof)));
    assert_eq!(r.remaining(), 3);
}

#[test]
fn read_variable_int_plain() {
    assert_eq!(reader(&[0]).read_variable_int(false).unwrap(), 0);
    assert_eq!(reader(&[64]).read_variable_int(false).unwrap(), 64);
    assert_eq!(reader(&[0x81, 0x01]).read_variable_int(false).unwrap(), 129);
    assert_eq!(reader(&[0xAC, 0x02]).read_variable_int(false).unwrap(), 300);
    assert_eq!(
        reader(&[0xFF, 0xFF, 0xFF, 0xFF, 0x0F]).read_variable_int(false).unwrap(),
        0xFFFF_FFFF
    );
}

#[test]
fn read_variable_int_rotates_the_first_byte_only() {
    assert_eq!(reader(&[1]).read_variable_int(true).unwrap(), 2);
    assert_eq!(reader(&[64]).read_variable_int(true).unwrap(), 1);
    assert_eq!(reader(&[127]).read_variable_int(true).unwrap(), 127);
    assert_eq!(reader(&[0x81, 0x01]).read_variable_int(true).unwrap(), 130);
    assert_eq!(reader(&[0x80, 0x80, 0x01]).read_variable_int(true).unwrap(), 16384);
}

#[test]
fn read_variable_int_stops_at_the_first_byte_without_continuation() {
    let mut r = reader(&[0x81, 0x01, 0x05]);
    assert_eq!(r.read_variable_int(false).unwrap(), 129);
    assert_eq!(r.remaining(), 1);
}

#[test]
fn read_variable_int_truncated_reads_everything() {
    let mut r = reader(&[0x80, 0x80]);
    assert!(matches!(r.read_variable_int(true), Err(DecodeError::UnexpectedEof)));
    assert_eq!(r.remaining(), 0);
    let mut r = reader(&[]);
    assert!(matches!(r.read_variable_int(false), Err(DecodeError::UnexpectedEof)));
}

#[test]
fn read_variable_int_ten_bytes_fill_sixty_four_bits() {
    let mut bytes = vec![0x80u8; 9];
    bytes.push(0x7F);
    assert_eq!(reader(&bytes).read_variable_int(false).unwrap(), 1u64 << 63);
}

#[test]
fn read_variable_int_drops_what_does_not_fit() {
    let mut bytes = vec![0xFFu8; 10];
    bytes.push(0x01);
    let mut r = reader(&bytes);
    assert_eq!(r.read_variable_int(false).unwrap(), u64::MAX);
    assert_eq!(r.remaining(), 0);
}

#[test]
fn read_vint_decodes_the_sign() {
    assert_eq!(reader(&[0]).read_vint().unwrap(), 0);
    assert_eq!(reader(&[1]).read_vint().unwrap(), 1);
    assert_eq!(reader(&[64]).read_vint().unwrap(), -1);
    assert_eq!(reader(&[63]).read_vint().unwrap(), 63);
    assert_eq!(reader(&[127]).read_vint().unwrap(), -64);
    assert_eq!(reader(&[0x81, 0x01]).read_vint().unwrap(), 65);
    assert_eq!(reader(&[0xBF, 0x01]).read_vint().unwrap(), 127);
    assert_eq!(reader(&[0x80, 0x80, 0x01]).read_vint().unwrap(), 8192);
    assert_eq!(
        reader(&[0xFF, 0xFF, 0xFF, 0xFF, 0x0F]).read_vint().unwrap(),
        -2147483648
    );
}

#[test]
fn read_vint_truncated() {
    let mut r = reader(&[0x80]);
    assert!(matches!(r.read_vint(), Err(DecodeError::UnexpectedEof)));
    assert_eq!(r.remaining(), 0);
}

#[test]
fn vint_written_is_not_vint_read() {
    let mut writer = ByteWriter::new();
    writer.write_vint(64);
    let mut r = reader(writer.get_raw());
    assert_eq!(r.read_vint().unwrap(), -1);

    let mut writer = ByteWriter::new();
    writer.write_vint(100);
    let mut r = reader(writer.get_raw());
    assert_eq!(r.read_vint().unwrap(), -37);

    let mut writer = ByteWriter::new();
    writer.write_vint(300);
    let mut r = reader(writer.get_raw());
    assert_ne!(r.read_vint().unwrap(), 300);

    let mut writer = ByteWriter::new();
    writer.write_vint(-1);
    let mut r = reader(writer.get_raw());
    assert_ne!(r.read_vint().unwrap(), -1);
}

#[test]
fn vint_below_sixty_four_happens_to_come_back() {
    for v in 0..64 {
        let mut writer = ByteWriter::new();
        writer.write_vint(v);
        let mut r = reader(writer.get_raw());
        assert_eq!(r.read_vint().unwrap(), v as i64);
    }
    for v in 64..128 {
        let mut writer = ByteWriter::new();
        writer.write_vint(v);
        let mut r = reader(writer.get_raw());
        assert_eq!(r.read_vint().unwrap(), 63 - v as i64);
    }
}

#[test]
fn read_string_present() {
    let mut r = reader(&[0, 0, 0, 3, b'a', b'b', b'c', 7]);
    assert_eq!(r.read_string().unwrap(), "abc");
    assert_eq!(r.remaining(), 1);
}

#[test]
fn read_string_absent_reads_as_empty() {
    let mut r = reader(&[0xFF, 0xFF, 0xFF, 0xFF, 7]);
    assert_eq!(r.read_string().unwrap(), "");
    assert_eq!(r.remaining(), 1);
}

#[test]
fn read_string_empty() {
    let mut r = reader(&[0, 0, 0, 0]);
    assert_eq!(r.read_string().unwrap(), "");
    assert_eq!(r.remaining(), 0);
}

#[test]
fn read_string_of_two_byte_character() {
    let mut r = reader(&[0, 0, 0, 2, 0xC3, 0xA9]);
    assert_eq!(r.read_string().unwrap(), "\u{e9}");
}

#[test]
fn read_string_truncated_in_the_length() {
    let mut r = reader(&[0, 0, 0]);
    assert!(matches!(r.read_string(), Err(DecodeError::UnexpectedEof)));
    assert_eq!(r.remaining(), 3);
}

#[test]
fn read_string_truncated_in_the_body() {
    let mut r = reader(&[0, 0, 0, 5, b'a', b'b']);
    assert!(matches!(r.read_string(), Err(DecodeError::UnexpectedEof)));
    assert_eq!(r.remaining(), 2);
}

#[test]
fn read_string_not_utf8() {
    let mut r = reader(&[0, 0, 0, 2, 0xC3, 0x28, 9]);
    assert!(matches!(r.read_string(), Err(DecodeError::Utf8Error(_))));
    assert_eq!(r.remaining(), 1);
}

#[test]
fn string_written_is_string_read() {
    let mut writer = ByteWriter::new();
    writer.write_string(Some("gr\u{fc}\u{df}e"));
    writer.write_string(None);
    writer.write_string(Some(""));
    let mut r = reader(writer.get_raw());
    assert_eq!(r.read_string().unwrap(), "gr\u{fc}\u{df}e");
    assert_eq!(r.read_string().unwrap(), "");
    assert_eq!(r.read_string().unwrap(), "");
    assert_eq!(r.remaining(), 0);
}

#[test]
fn int_written_is_int_read() {
    let mut writer = ByteWriter::new();
    writer.write_int(-123456);
    writer.write_long(7, -8);
    let mut r = reader(writer.get_raw());
    assert_eq!(r.read_u32().unwrap(), (-123456i32) as u32);
    assert_eq!(r.read_long().unwrap(), (7, (-8i32) as u32));
}

#[test]
fn read_data_reference_zero_is_alone() {
    let mut r = reader(&[0, 5]);
    assert_eq!(r.read_data_reference().unwrap(), (0, 0));
    assert_eq!(r.remaining(), 1);
}

#[test]
fn read_data_reference_has_two_parts() {
    let mut r = reader(&[16, 3, 9]);
    assert_eq!(r.read_data_reference().unwrap(), (16, 3));
    assert_eq!(r.remaining(), 1);
    let mut r = reader(&[64, 1]);
    assert_eq!(r.read_data_reference().unwrap(), (-1, 1));
}

#[test]
fn read_data_reference_truncated() {
    let mut r = reader(&[16]);
    assert!(matches!(r.read_data_reference(), Err(DecodeError::UnexpectedEof)));
    let mut r = reader(&[]);
    assert!(matches!(r.read_data_reference(), Err(DecodeError::UnexpectedEof)));
}

#[test]
fn read_command_header_is_nine_integers() {
    let mut r = reader(&[1, 2, 3, 4, 5, 6, 7, 8, 64, 10]);
    assert_eq!(r.read_command_header().unwrap(), vec![1, 2, 3, 4, 5, 6, 7, 8, -1]);
    assert_eq!(r.remaining(), 1);
}

#[test]
fn read_command_header_truncated() {
    let mut r = reader(&[1, 2, 3, 4, 5, 6, 7, 8]);
    assert!(matches!(r.read_command_header(), Err(DecodeError::UnexpectedEof)));
    assert_eq!(r.remaining(), 0);
}

#[test]
fn peek_int_reads_nothing() {
    let r = reader(&[0x12, 0x34, 0x56, 0x78, 0x9A]);
    assert_eq!(r.peek_int().unwrap(), 0x1234_5678);
    assert_eq!(r.peek_int().unwrap(), 0x1234_5678);
    assert_eq!(r.remaining(), 5);
}

#[test]
fn peek_int_needs_four_bytes() {
    let r = reader(&[0x12, 0x34, 0x56]);
    assert!(matches!(r.peek_int(), Err(DecodeError::UnexpectedEof)));
}

#[test]
fn peek_int_behind_the_cursor() {
    let mut r = reader(&[9, 0, 0, 1, 2]);
    r.read_u8().unwrap();
    assert_eq!(r.peek_int().unwrap(), 0x0000_0102);
}

#[test]
fn errors_convert_from_their_sources() {
    let source = String::from_utf8(vec![0xFF]).unwrap_err();
    assert!(matches!(DecodeError::from(source), DecodeError::Utf8Error(_)));
    let source = std::io::Error::from(std::io::ErrorKind::UnexpectedEof);
    assert!(matches!(DecodeError::from(source), DecodeError::IoError(_)));
}
