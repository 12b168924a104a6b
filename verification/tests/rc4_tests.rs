use deuce::device::Device;
use deuce::rc4::Rc4;
use deuce::settings::Settings;

fn settings(key: &str) -> Settings {
    Settings { key: key.to_string(), port: 9339, database: String::new(), max_rank: 35 }
}

fn process(key: &[u8], data: &[u8]) -> Vec<u8> {
    let mut cipher = Rc4::new(key);
    let mut data = data.to_vec();
    cipher.process(&mut data);
    data
}

#[test]
fn known_keystreams() {
    assert_eq!(
        process(b"Key", b"Plaintext"),
        vec![0xBB, 0xF3, 0x16, 0xE8, 0xD9, 0x40, 0xAF, 0x0A, 0xD3]
    );
    assert_eq!(process(b"Wiki", b"pedia"), vec![0x10, 0x21, 0xBF, 0x04, 0x20]);
    assert_eq!(
        process(b"Secret", b"Attack at dawn"),
        vec![0x45, 0xA0, 0x1F, 0x64, 0x5F, 0xC3, 0x5B, 0x38, 0x35, 0x52, 0x54, 0x4B, 0x9B, 0xF5]
    );
}

#[test]
fn one_byte_key() {
    let once = process(&[7], b"some text");
    assert_ne!(once, b"some text".to_vec());
    assert_eq!(process(&[7], &once), b"some text".to_vec());
}

#[test]
fn processing_in_pieces_is_processing_at_once() {
    let mut whole = Rc4::new(b"Key");
    let mut data = b"Plaintext".to_vec();
    whole.process(&mut data);

    let mut pieces = Rc4::new(b"Key");
    let mut first = b"Plai".to_vec();
    let mut second = b"ntext".to_vec();
    pieces.process(&mut first);
    pieces.process(&mut second);
    first.extend_from_slice(&second);
    assert_eq!(first, data);
}

#[test]
fn empty_data_changes_nothing() {
    let mut cipher = Rc4::new(b"Key");
    let mut nothing: Vec<u8> = Vec::new();
    cipher.process(&mut nothing);
    let mut data = b"Plaintext".to_vec();
    cipher.process(&mut data);
    assert_eq!(data, vec![0xBB, 0xF3, 0x16, 0xE8, 0xD9, 0x40, 0xAF, 0x0A, 0xD3]);
}

#[test]
fn decrypt_undoes_encrypt() {
    let settings = settings("secret");
    let mut sender = Device::new(&settings);
    let mut receiver = Device::new(&settings);
    for payload in [&b"hello"[..], &b""[..], &[0u8; 300][..], &b"a second message"[..]] {
        let mut data = payload.to_vec();
        sender.encrypt(&mut data);
        receiver.decrypt(&mut data);
        assert_eq!(data, payload.to_vec());
    }
}

#[test]
fn decrypt_undoes_encrypt_for_every_short_key() {
    for key in ["", "k", "two words", "\u{e9}\u{e8}"] {
        let settings = settings(key);
        let mut sender = Device::new(&settings);
        let mut receiver = Device::new(&settings);
        let mut data = b"payload".to_vec();
        sender.encrypt(&mut data);
        assert_ne!(data, b"payload".to_vec());
        receiver.decrypt(&mut data);
        assert_eq!(data, b"payload".to_vec());
    }
}

#[test]
fn warm_up_skips_the_start_of_the_keystream() {
    let mut device = Device::new(&settings("secret"));
    let mut data = b"hello".to_vec();
    device.encrypt(&mut data);
    assert_eq!(data, vec![0x38, 0x36, 0xCF, 0x50, 0x8E]);

    let mut cold = Rc4::new(b"secretnonce");
    let mut skipped = vec![0u8; 11];
    cold.process(&mut skipped);
    let mut data = b"hello".to_vec();
    cold.process(&mut data);
    assert_eq!(data, vec![0x38, 0x36, 0xCF, 0x50, 0x8E]);
}

#[test]
fn both_directions_start_alike_and_go_their_own_ways() {
    let mut device = Device::new(&settings("secret"));
    let mut outbound = vec![0u8; 8];
    device.encrypt(&mut outbound);
    assert_eq!(outbound, vec![0x50, 0x53, 0xA3, 0x3C, 0xE1, 0xD4, 0xAB, 0xCE]);
    let mut inbound = vec![0u8; 4];
    device.decrypt(&mut inbound);
    assert_eq!(inbound, vec![0x50, 0x53, 0xA3, 0x3C]);
    let mut inbound = vec![0u8; 4];
    device.decrypt(&mut inbound);
    assert_eq!(inbound, vec![0xE1, 0xD4, 0xAB, 0xCE]);
}

#[test]
fn send_frames_the_encrypted_payload() {
    let settings = settings("secret");
    let mut sender = Device::new(&settings);
    let packet = sender.send(20104, b"hello".to_vec(), 1);
    assert_eq!(
        packet,
        vec![0x4E, 0x88, 0, 0, 5, 0, 1, 0x38, 0x36, 0xCF, 0x50, 0x8E]
    );
}

#[test]
fn send_with_an_empty_payload() {
    let mut sender = Device::new(&settings("secret"));
    let packet = sender.send(24311, Vec::new(), 0x0102);
    assert_eq!(packet, vec![0x5E, 0xF7, 0, 0, 0, 1, 2]);
}

#[test]
fn send_declares_the_length_of_a_long_payload() {
    let mut sender = Device::new(&settings("secret"));
    let packet = sender.send(1, vec![0u8; 0x01_0203], 0);
    assert_eq!(packet.len(), 7 + 0x01_0203);
    assert_eq!(&packet[..7], &[0, 1, 1, 2, 3, 0, 0]);
}
