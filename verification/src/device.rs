//! One end of a connection: the pair of ciphers that a server keeps for a
//! peer, one for each direction, and the framing of what it sends.

use crate::frame::{frame_bytes, FrameHeader};
use crate::rc4::{lemma_process_twice_is_identity, xor_bytes, Rc4, Rc4View};
use crate::settings::Settings;
use vstd::prelude::*;
use vstd::utf8::encode_utf8;

verus! {

/// The five bytes `nonce`, which every key ends in.
pub open spec fn nonce() -> Seq<u8> {
    seq![0x6e, 0x6f, 0x6e, 0x63, 0x65]
}

/// The key of a connection: the bytes of the shared secret, then the nonce.
pub open spec fn key_material(secret: Seq<char>) -> Seq<u8> {
    encode_utf8(secret) + nonce()
}

/// The state in which both ciphers of a connection start: keyed with the
/// key material and then run over as many bytes as the key material has,
/// so that the first key bytes are never used on traffic.
pub open spec fn warmed_up(secret: Seq<char>) -> Rc4View {
    Rc4View::keyed(key_material(secret)).advance(key_material(secret).len())
}

/// The ciphers of a connection as mathematical values.
pub struct DeviceView {
    pub decryptor: Rc4View,
    pub encryptor: Rc4View,
}

/// The cipher pair of one connection.
pub struct Device {
    decryptor: Rc4,
    encryptor: Rc4,
}

impl View for Device {
    type V = DeviceView;

    closed spec fn view(&self) -> DeviceView {
        DeviceView { decryptor: self.decryptor@, encryptor: self.encryptor@ }
    }
}

impl DeviceView {
    /// Both ciphers hold a permutation.
    pub open spec fn wf(self) -> bool {
        self.decryptor.wf() && self.encryptor.wf()
    }
}

impl Device {
    /// The ciphers for a new connection. Both are made from the same key
    /// material and warmed up alike; from then on each goes its own way.
    pub fn new(settings: &Settings) -> (device: Self)
        ensures
            device@.wf(),
            device@.decryptor == warmed_up(settings.key@),
            device@.encryptor == warmed_up(settings.key@),
    {
        let key = settings.key.as_str().as_bytes();

        let mut full_key: Vec<u8> = Vec::with_capacity(5);
        full_key.extend_from_slice(key);
        full_key.push(0x6e);
        full_key.push(0x6f);
        full_key.push(0x6e);
        full_key.push(0x63);
        full_key.push(0x65);
        assert(full_key@ =~= key_material(settings.key@));

        let mut decryptor = Rc4::new(full_key.as_slice());
        let mut encryptor = Rc4::new(full_key.as_slice());

        decryptor.process(full_key.as_mut_slice());
        encryptor.process(full_key.as_mut_slice());

        Self { decryptor, encryptor }
    }

    /// Decrypts inbound bytes in place.
    pub fn decrypt(&mut self, data: &mut [u8])
        requires
            old(self)@.wf(),
        ensures
            final(self)@.wf(),
            final(self)@.encryptor == old(self)@.encryptor,
            final(self)@.decryptor == old(self)@.decryptor.advance(old(data)@.len()),
            final(data)@ == xor_bytes(
                old(data)@,
                old(self)@.decryptor.keystream(old(data)@.len()),
            ),
    {
        self.decryptor.process(data);
    }

    /// Encrypts outbound bytes in place.
    pub fn encrypt(&mut self, data: &mut [u8])
        requires
            old(self)@.wf(),
        ensures
            final(self)@.wf(),
            final(self)@.decryptor == old(self)@.decryptor,
            final(self)@.encryptor == old(self)@.encryptor.advance(old(data)@.len()),
            final(data)@ == xor_bytes(
                old(data)@,
                old(self)@.encryptor.keystream(old(data)@.len()),
            ),
    {
        self.encryptor.process(data);
    }

    /// Makes the frame that carries `data` to the peer; writing it to the
    /// socket is the caller's part. The payload is encrypted first, then the
    /// header is put in front of it.
    ///
    /// The length field of the header always holds the length of the
    /// encrypted payload, so that a peer that goes by the field finds the
    /// end of the frame. Of a length beyond 24 bits it holds the low 24 bits.
    pub fn send(&mut self, packet_id: u16, data: Vec<u8>, version: u16) -> (packet: Vec<u8>)
        requires
            old(self)@.wf(),
        ensures
            final(self)@.wf(),
            final(self)@.decryptor == old(self)@.decryptor,
            final(self)@.encryptor == old(self)@.encryptor.advance(data@.len()),
            packet@ == frame_bytes(
                packet_id,
                version,
                xor_bytes(data@, old(self)@.encryptor.keystream(data@.len())),
            ),
    {
        let mut data = data;
        self.encrypt(data.as_mut_slice());

        let length = data.len();
        let header = FrameHeader {
            packet_id,
            length: (length % 0x100_0000) as u32,
            version,
        };
        let head = header.to_bytes();

        let mut packet: Vec<u8> = Vec::new();
        packet.extend_from_slice(head.as_slice());
        packet.extend_from_slice(data.as_slice());
        assert(packet@ =~= frame_bytes(packet_id, version, data@));
        packet
    }
}

/// What one end encrypts, the other end decrypts: both ends start from the
/// same secret, so the decrypting cipher of the one is in the state of the
/// encrypting cipher of the other, and stays so payload after payload.
pub proof fn lemma_decrypt_inverts_encrypt(secret: Seq<char>, sent: nat, payload: Seq<u8>)
    ensures
        ({
            let encryptor = warmed_up(secret).advance(sent);
            let decryptor = warmed_up(secret).advance(sent);
            let wire = xor_bytes(payload, encryptor.keystream(payload.len()));
            &&& xor_bytes(wire, decryptor.keystream(wire.len())) == payload
            &&& encryptor.advance(payload.len()) == decryptor.advance(wire.len())
        }),
{
    lemma_process_twice_is_identity(warmed_up(secret).advance(sent), payload);
}

} // verus!
