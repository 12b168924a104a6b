//! The answer to a login that was accepted.

use crate::packets::client::login_message::{LoginMessage, LoginView};
use crate::packets::packet::{Field, FieldWriter, ServerPacket};
use vstd::prelude::*;

verus! {

/// The acceptance of a login.
pub struct LoginOkMessage<'a> {
    pub id: u16,
    /// The login that is answered.
    pub payload: &'a LoginMessage,
}

impl<'a> LoginOkMessage<'a> {
    /// The acceptance of the login `payload`, under the packet id 20104.
    pub fn new(payload: &'a LoginMessage) -> (message: Self)
        ensures
            message.id == 20104,
            message.payload == payload,
    {
        Self { id: 20104, payload }
    }
}

/// The fields that answer the login `login`: the player's identifier, twice;
/// the token; the account's identifiers with the platform services; the
/// client's version, echoed; the environment; the region; and the fields
/// that this server leaves empty.
pub open spec fn login_ok_fields(login: LoginView) -> Seq<Field> {
    seq![
        Field::Long(login.high_id as i32, login.low_id as i32),
        Field::Long(login.high_id as i32, login.low_id as i32),
        Field::Str(Some(login.token)),
        Field::Str(Some("467606826913688"@)),
        Field::Str(Some("G:325378671"@)),
        Field::Int(login.major_version as i32),
        Field::Int(login.minor_version as i32),
        Field::Int(login.build as i32),
        Field::Str(Some("-dev"@)),
        Field::Int(0),
        Field::Int(0),
        Field::Int(0),
        Field::Str(None),
        Field::Str(None),
        Field::Str(None),
        Field::Int(0),
        Field::Str(None),
        Field::Str(Some(login.region)),
        Field::Str(None),
        Field::Int(1),
        Field::Str(None),
        Field::Str(None),
        Field::Str(None),
    ]
}

impl<'a> ServerPacket for LoginOkMessage<'a> {
    open spec fn encodable(&self) -> bool {
        true
    }

    open spec fn fields(&self) -> Seq<Field> {
        login_ok_fields(self.payload@)
    }

    fn encode(&mut self) -> (bytes: Vec<u8>)
        ensures
            *final(self) == *old(self),
    {
        let mut writer = FieldWriter::new();

        writer.put_long(self.payload.high_id as i32, self.payload.low_id as i32);
        writer.put_long(self.payload.high_id as i32, self.payload.low_id as i32);

        writer.put_string(Some(self.payload.token.as_str()));
        writer.put_string(Some("467606826913688"));
        writer.put_string(Some("G:325378671"));

        writer.put_int(self.payload.major_version as i32);
        writer.put_int(self.payload.minor_version as i32);
        writer.put_int(self.payload.build as i32);

        writer.put_string(Some("-dev"));

        writer.put_int(0);
        writer.put_int(0);
        writer.put_int(0);

        writer.put_string(None);
        writer.put_string(None);
        writer.put_string(None);

        writer.put_int(0);

        writer.put_string(None);
        writer.put_string(Some(self.payload.region.as_str()));
        writer.put_string(None);

        writer.put_int(1);

        writer.put_string(None);
        writer.put_string(None);
        writer.put_string(None);

        assert(writer.fields@ =~= self.fields());
        writer.finish()
    }
}

} // verus!
