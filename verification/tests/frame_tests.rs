use deuce::frame::{FrameHeader, HEADER_LEN, MAX_PAYLOAD_LEN};

#[test]
fn header_has_seven_bytes() {
    assert_eq!(HEADER_LEN, 7);
    assert_eq!(MAX_PAYLOAD_LEN, 0xFF_FFFF);
}

#[test]
fn parse_reads_id_length_and_version() {
    let header = FrameHeader::parse(&[0x27, 0x75, 0x00, 0x01, 0x02, 0x00, 0x0B]);
    assert_eq!(header.packet_id, 10101);
    assert_eq!(header.length, 258);
    assert_eq!(header.version, 11);
}

#[test]
fn parse_of_the_extremes() {
    let header = FrameHeader::parse(&[0, 0, 0, 0, 0, 0, 0]);
    assert_eq!(header, FrameHeader { packet_id: 0, length: 0, version: 0 });
    let header = FrameHeader::parse(&[0xFF; 7]);
    assert_eq!(
        header,
        FrameHeader { packet_id: 0xFFFF, length: 0xFF_FFFF, version: 0xFFFF }
    );
}

#[test]
fn to_bytes_spells_the_header() {
    let header = FrameHeader { packet_id: 20104, length: 0x01_0203, version: 1 };
    assert_eq!(header.to_bytes(), [0x4E, 0x88, 1, 2, 3, 0, 1]);
}

#[test]
fn to_bytes_keeps_the_low_bits_of_a_long_length() {
    let header = FrameHeader { packet_id: 1, length: 0x0501_0203, version: 2 };
    assert_eq!(header.to_bytes(), [0, 1, 1, 2, 3, 0, 2]);
}

#[test]
fn bytes_parsed_and_spelled_again_are_the_same() {
    for bytes in [[1u8, 2, 3, 4, 5, 6, 7], [0xFF; 7], [0; 7], [0x27, 0x75, 0, 0, 0x40, 0, 1]] {
        assert_eq!(FrameHeader::parse(&bytes).to_bytes(), bytes);
    }
}

#[test]
fn header_spelled_and_parsed_again_is_the_same() {
    let header = FrameHeader { packet_id: 24101, length: 70000, version: 3 };
    assert_eq!(FrameHeader::parse(&header.to_bytes()), header);
}
