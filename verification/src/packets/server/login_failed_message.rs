//! The answer to a login that was refused.

use crate::packets::client::LoginMessage;
use crate::packets::packet::{Field, FieldWriter, ServerPacket};
use vstd::prelude::*;

verus! {

/// The refusal of a login.
pub struct LoginFailedMessage<'a> {
    pub id: u16,
    /// What went wrong, for the server's own records. It is not sent.
    pub message: String,
    /// The reason as the client knows it.
    pub error_code: i32,
    /// The login that is answered.
    pub payload: &'a LoginMessage,
}

impl<'a> LoginFailedMessage<'a> {
    /// The refusal of the login `payload`, under the packet id 20103.
    pub fn new(payload: &'a LoginMessage, message: String, error_code: i32) -> (failed: Self)
        ensures
            failed.id == 20103,
            failed.message == message,
            failed.error_code == error_code,
            failed.payload == payload,
    {
        Self { id: 20103, message, error_code, payload }
    }
}

/// The fields that refuse a login with the code `error_code`: the code; the
/// fingerprint the client sent; where to reach the server, its assets and
/// its updates; and the fields that this server leaves empty.
pub open spec fn login_failed_fields(error_code: i32, fingerprint_sha: Seq<char>) -> Seq<Field> {
    seq![
        Field::Int(error_code),
        Field::Str(Some(fingerprint_sha)),
        Field::Str(Some("0.0.0.0:9339"@)),
        Field::Str(Some("https://game-assets.brawlstarsgame.com"@)),
        Field::Str(Some("https://github.com/Super-brawl-team/Obiad-Brawl"@)),
        Field::Int(0),
        Field::Boolean(false),
        Field::Str(None),
        Field::Str(None),
        Field::Int(0),
        Field::Int(3),
        Field::Str(None),
        Field::Str(None),
        Field::Int(0),
        Field::Int(0),
        Field::Boolean(false),
        Field::Boolean(false),
    ]
}

impl<'a> ServerPacket for LoginFailedMessage<'a> {
    open spec fn encodable(&self) -> bool {
        true
    }

    open spec fn fields(&self) -> Seq<Field> {
        login_failed_fields(self.error_code, self.payload.fingerprint_sha@)
    }

    fn encode(&mut self) -> (bytes: Vec<u8>)
        ensures
            *final(self) == *old(self),
    {
        let mut writer = FieldWriter::new();

        writer.put_int(self.error_code);
        writer.put_string(Some(self.payload.fingerprint_sha.as_str()));

        writer.put_string(Some("0.0.0.0:9339"));
        writer.put_string(Some("https://game-assets.brawlstarsgame.com"));
        writer.put_string(Some("https://github.com/Super-brawl-team/Obiad-Brawl"));

        writer.put_int(0);
        writer.put_boolean(false);

        writer.put_string(None);
        writer.put_string(None);

        writer.put_int(0);
        writer.put_int(3);

        writer.put_string(None);
        writer.put_string(None);

        writer.put_int(0);
        writer.put_int(0);

        writer.put_boolean(false);
        writer.put_boolean(false);

        assert(writer.fields@ =~= self.fields());
        writer.finish()
    }
}

} // verus!
