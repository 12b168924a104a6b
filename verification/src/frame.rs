//! Message framing: the seven-byte header that precedes every payload.

use vstd::prelude::*;

verus! {

/// Length of a frame header in bytes.
pub const HEADER_LEN: usize = 7;

/// Largest payload length that the header's 24-bit field can hold.
pub const MAX_PAYLOAD_LEN: u32 = 0xFF_FFFF;

/// Header of one frame: what the message is, how many payload bytes follow,
/// and the protocol version of the sender.
#[derive(Clone, Copy, Debug, PartialEq, Eq, Structural)]
pub struct FrameHeader {
    pub packet_id: u16,
    pub length: u32,
    pub version: u16,
}

/// The header that the seven bytes `bytes` spell: a 16-bit packet id, a
/// 24-bit payload length and a 16-bit version, each most significant byte first.
pub open spec fn parse_header(bytes: Seq<u8>) -> FrameHeader
    recommends
        bytes.len() == HEADER_LEN,
{
    FrameHeader {
        packet_id: (bytes[0] * 0x100 + bytes[1]) as u16,
        length: (bytes[2] * 0x1_0000 + bytes[3] * 0x100 + bytes[4]) as u32,
        version: (bytes[5] * 0x100 + bytes[6]) as u16,
    }
}

/// The seven bytes that spell `header`. A length beyond 24 bits loses its
/// upper bits.
pub open spec fn header_bytes(header: FrameHeader) -> Seq<u8> {
    seq![
        (header.packet_id / 0x100) as u8,
        (header.packet_id % 0x100) as u8,
        (header.length / 0x1_0000 % 0x100) as u8,
        (header.length / 0x100 % 0x100) as u8,
        (header.length % 0x100) as u8,
        (header.version / 0x100) as u8,
        (header.version % 0x100) as u8,
    ]
}

/// A whole frame: the header of a payload, then the payload.
pub open spec fn frame_bytes(packet_id: u16, version: u16, payload: Seq<u8>) -> Seq<u8> {
    header_bytes(
        FrameHeader {
            packet_id,
            length: (payload.len() % 0x100_0000) as u32,
            version,
        },
    ) + payload
}

impl FrameHeader {
    /// The length fits the header's 24-bit field.
    pub open spec fn wf(&self) -> bool {
        self.length <= MAX_PAYLOAD_LEN
    }

    /// Reads a header from the seven bytes that a peer sent.
    pub fn parse(bytes: &[u8; 7]) -> (header: FrameHeader)
        ensures
            header == parse_header(bytes@),
            header.wf(),
    {
        let packet_id: u16 = bytes[0] as u16 * 0x100 + bytes[1] as u16;
        let length: u32 = bytes[2] as u32 * 0x1_0000 + bytes[3] as u32 * 0x100 + bytes[4] as u32;
        let version: u16 = bytes[5] as u16 * 0x100 + bytes[6] as u16;
        FrameHeader { packet_id, length, version }
    }

    /// Spells this header as seven bytes.
    pub fn to_bytes(&self) -> (bytes: [u8; 7])
        ensures
            bytes@ == header_bytes(*self),
    {
        let bytes: [u8; 7] = [
            (self.packet_id / 0x100) as u8,
            (self.packet_id % 0x100) as u8,
            (self.length / 0x1_0000 % 0x100) as u8,
            (self.length / 0x100 % 0x100) as u8,
            (self.length % 0x100) as u8,
            (self.version / 0x100) as u8,
            (self.version % 0x100) as u8,
        ];
        assert(bytes@ =~= header_bytes(*self));
        bytes
    }
}

/// A header with a 24-bit length is read back as it was written.
pub proof fn lemma_header_round_trip(header: FrameHeader)
    requires
        header.wf(),
    ensures
        header_bytes(header).len() == HEADER_LEN,
        parse_header(header_bytes(header)) == header,
{
}

/// A frame whose payload fits 24 bits declares exactly the length of its
/// payload, and the payload follows the header unchanged.
pub proof fn lemma_frame_declares_payload(packet_id: u16, version: u16, payload: Seq<u8>)
    requires
        payload.len() <= MAX_PAYLOAD_LEN,
    ensures
        ({
            let frame = frame_bytes(packet_id, version, payload);
            let header = parse_header(frame.take(HEADER_LEN as int));
            &&& frame.len() == HEADER_LEN + payload.len()
            &&& header.packet_id == packet_id
            &&& header.version == version
            &&& header.length == payload.len()
            &&& frame.skip(HEADER_LEN as int) == payload
        }),
{
    let header = FrameHeader { packet_id, length: (payload.len() % 0x100_0000) as u32, version };
    let frame = frame_bytes(packet_id, version, payload);
    lemma_header_round_trip(header);
    assert(frame.take(HEADER_LEN as int) =~= header_bytes(header));
    assert(frame.skip(HEADER_LEN as int) =~= payload);
}

} // verus!
