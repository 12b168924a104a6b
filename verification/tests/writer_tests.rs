use deuce::writer::ByteWriter;

#[test]
fn new_writer_is_empty() {
    let writer = ByteWriter::new();
    assert_eq!(writer.size(), 0);
    assert_eq!(writer.offset, 0);
    assert_eq!(writer.bitoffset, 0);
    assert!(writer.get_raw().is_empty());
}

#[test]
fn write_int_is_big_endian() {
    let mut writer = ByteWriter::new();
    writer.write_int(0x0102_0304);
    writer.write_int(-2);
    assert_eq!(writer.get_raw(), &[1, 2, 3, 4, 0xFF, 0xFF, 0xFF, 0xFE]);
    assert_eq!(writer.offset, 8);
    assert_eq!(writer.size(), 8);
}

#[test]
fn write_int_endian_takes_the_low_bytes_first() {
    let mut writer = ByteWriter::new();
    writer.write_int_endian(0x0102_0304, 4);
    writer.write_int_endian(0x0102_0304, 3);
    writer.write_int_endian(0x0102_0304, 1);
    writer.write_int_endian(0x0102_0304, 0);
    assert_eq!(writer.get_raw(), &[4, 3, 2, 1, 4, 3, 2, 4]);
    assert_eq!(writer.offset, 8);
}

#[test]
fn write_short_in_both_orders() {
    let mut writer = ByteWriter::new();
    writer.write_short(0x0102);
    writer.write_short_endian(0x0102);
    writer.write_short(-2);
    writer.write_short_endian(-2);
    assert_eq!(writer.get_raw(), &[1, 2, 2, 1, 0xFF, 0xFE, 0xFE, 0xFF]);
    assert_eq!(writer.offset, 8);
}

#[test]
fn write_byte_and_boolean() {
    let mut writer = ByteWriter::new();
    writer.write_byte(0xAB);
    writer.write_boolean(true);
    writer.write_boolean(false);
    assert_eq!(writer.get_raw(), &[0xAB, 1, 0]);
    assert_eq!(writer.offset, 3);
}

#[test]
fn write_bytes_puts_the_length_in_front() {
    let mut writer = ByteWriter::new();
    writer.write_bytes(&[9, 8, 7]);
    writer.write_bytes(&[]);
    assert_eq!(writer.get_raw(), &[0, 0, 0, 3, 9, 8, 7, 0, 0, 0, 0]);
    assert_eq!(writer.offset, 11);
}

#[test]
fn write_raw_puts_nothing_in_front() {
    let mut writer = ByteWriter::new();
    writer.write_raw(&[9, 8, 7]);
    assert_eq!(writer.get_raw(), &[9, 8, 7]);
    assert_eq!(writer.offset, 3);
}

#[test]
fn write_string_present() {
    let mut writer = ByteWriter::new();
    writer.write_string(Some("abc"));
    assert_eq!(writer.get_raw(), &[0, 0, 0, 3, b'a', b'b', b'c']);
    assert_eq!(writer.offset, 7);
}

#[test]
fn write_string_counts_bytes_not_characters() {
    let mut writer = ByteWriter::new();
    writer.write_string(Some("\u{e9}"));
    assert_eq!(writer.get_raw(), &[0, 0, 0, 2, 0xC3, 0xA9]);
}

#[test]
fn write_string_empty_is_not_absent() {
    let mut writer = ByteWriter::new();
    writer.write_string(Some(""));
    assert_eq!(writer.get_raw(), &[0, 0, 0, 0]);
}

#[test]
fn write_string_absent() {
    let mut writer = ByteWriter::new();
    writer.write_string(None);
    assert_eq!(writer.get_raw(), &[0xFF, 0xFF, 0xFF, 0xFF]);
    assert_eq!(writer.offset, 4);
}

#[test]
fn write_string_at_the_limit_is_present() {
    let text = "a".repeat(900_000);
    let mut writer = ByteWriter::new();
    writer.write_string(Some(text.as_str()));
    assert_eq!(writer.size(), 900_004);
    assert_eq!(&writer.get_raw()[..4], &[0x00, 0x0D, 0xBB, 0xA0]);
    assert!(writer.get_raw()[4..].iter().all(|b| *b == b'a'));
    assert_eq!(writer.offset, 900_004);
}

#[test]
fn write_string_beyond_the_limit_is_absent() {
    let text = "a".repeat(900_001);
    let mut long = ByteWriter::new();
    long.write_string(Some(text.as_str()));
    let mut absent = ByteWriter::new();
    absent.write_string(None);
    assert_eq!(long.get_raw(), absent.get_raw());
    assert_eq!(long.get_raw(), &[0xFF, 0xFF, 0xFF, 0xFF]);
}

#[test]
fn write_vint_small_values_take_one_byte() {
    let mut writer = ByteWriter::new();
    writer.write_vint(0);
    writer.write_vint(1);
    writer.write_vint(64);
    writer.write_vint(127);
    assert_eq!(writer.get_raw(), &[0, 1, 64, 127]);
    assert_eq!(writer.offset, 4);
}

#[test]
fn write_vint_groups_of_seven_bits() {
    let mut writer = ByteWriter::new();
    writer.write_vint(128);
    writer.write_vint(300);
    writer.write_vint(2017189);
    assert_eq!(writer.get_raw(), &[0x80, 0x01, 0xAC, 0x02, 0xA5, 0x8F, 0x7B]);
    assert_eq!(writer.offset, 7);
}

#[test]
fn write_vint_negative_is_the_bit_pattern() {
    let mut writer = ByteWriter::new();
    writer.write_vint(-1);
    assert_eq!(writer.get_raw(), &[0xFF, 0xFF, 0xFF, 0xFF, 0x0F]);
    let mut writer = ByteWriter::new();
    writer.write_vint(i32::MIN);
    assert_eq!(writer.get_raw(), &[0x80, 0x80, 0x80, 0x80, 0x08]);
    let mut writer = ByteWriter::new();
    writer.write_vint(i32::MAX);
    assert_eq!(writer.get_raw(), &[0xFF, 0xFF, 0xFF, 0xFF, 0x07]);
}

#[test]
fn write_long_long_is_high_word_then_low_word() {
    let mut writer = ByteWriter::new();
    writer.write_long_long(0x0102_0304_0506_0708);
    writer.write_long_long(-2);
    assert_eq!(
        writer.get_raw(),
        &[1, 2, 3, 4, 5, 6, 7, 8, 0xFF, 0xFF, 0xFF, 0xFF, 0xFF, 0xFF, 0xFF, 0xFE]
    );
    assert_eq!(writer.offset, 16);
}

#[test]
fn write_long_is_two_ints() {
    let mut writer = ByteWriter::new();
    writer.write_long(1, 2);
    assert_eq!(writer.get_raw(), &[0, 0, 0, 1, 0, 0, 0, 2]);
}

#[test]
fn write_vlong_is_two_vints() {
    let mut writer = ByteWriter::new();
    writer.write_vlong(0, 300);
    assert_eq!(writer.get_raw(), &[0, 0xAC, 0x02]);
}

#[test]
fn write_sc_id_is_class_then_instance() {
    let mut writer = ByteWriter::new();
    writer.write_sc_id(16, 3);
    writer.write_sc_id(0, 1);
    assert_eq!(writer.get_raw(), &[16, 3, 0, 1]);
}

#[test]
fn write_array_vint_puts_the_count_in_front() {
    let mut writer = ByteWriter::new();
    writer.write_array_vint(vec![1, 2, 5, 10, 20, 60]);
    writer.write_array_vint(vec![]);
    writer.write_array_vint(vec![200]);
    assert_eq!(writer.get_raw(), &[6, 1, 2, 5, 10, 20, 60, 0, 1, 0xC8, 0x01]);
}

#[test]
fn every_write_resets_the_bit_offset() {
    let mut writer = ByteWriter::new();
    writer.bitoffset = 3;
    writer.write_vint(5);
    assert_eq!(writer.bitoffset, 0);
    writer.bitoffset = 3;
    writer.write_string(None);
    assert_eq!(writer.bitoffset, 0);
    writer.bitoffset = 3;
    writer.write_boolean(true);
    assert_eq!(writer.bitoffset, 0);
}
