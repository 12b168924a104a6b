//! Which message a packet id announces.

use crate::packets::client::login_message::{
    login_filled, login_layout, login_of, LoginMessage, LoginView,
};
use crate::packets::packet::{fields_read, left_unread, read_fields, ClientPacket};
use crate::reader::{ByteReader, DecodeError};
use vstd::prelude::*;

verus! {

/// The packet id of a login.
pub const LOGIN_MESSAGE_ID: u16 = 10101;

/// A message from a client, of one of the kinds that the server handles.
pub enum ClientMessage {
    Login(LoginMessage),
}

/// An empty message of the kind that `packet_id` announces, ready to be
/// filled from a payload. `None` where the server handles no message of
/// that id; such a frame is to be ignored.
pub fn create_packet(packet_id: u16) -> (packet: Option<ClientMessage>)
    ensures
        packet is Some <==> packet_id == LOGIN_MESSAGE_ID,
        packet matches Some(ClientMessage::Login(login)) ==> login@ == (LoginView {
            high_id: 0,
            low_id: 0,
            token: Seq::empty(),
            major_version: 0,
            minor_version: 0,
            build: 0,
            fingerprint_sha: Seq::empty(),
            unknown_string1: Seq::empty(),
            device_id: Seq::empty(),
            unknown_string2: Seq::empty(),
            device: Seq::empty(),
            system_language: 0,
            region: Seq::empty(),
        }),
{
    match packet_id {
        10101 => Some(ClientMessage::Login(LoginMessage::default())),
        _ => None,
    }
}

impl ClientPacket for ClientMessage {
    fn decode(&mut self, stream: &mut ByteReader) -> (decoded: Result<(), DecodeError>)
        ensures
            *final(self) is Login,
            (*final(self))->Login_0@ == login_filled(
                (*old(self))->Login_0@,
                fields_read(old(stream)@, login_layout()),
            ),
            final(stream)@ == left_unread(old(stream)@, login_layout()),
            match decoded {
                Ok(()) => read_fields(old(stream)@, login_layout()) matches Ok((values, rest))
                    && (*final(self))->Login_0@ == login_of(values) && final(stream)@ == rest,
                Err(error) => {
                    &&& read_fields(old(stream)@, login_layout()) matches Err(failure)
                    &&& (failure is Truncated <==> error is UnexpectedEof)
                    &&& (failure is NotUtf8 <==> error is Utf8Error)
                },
            },
    {
        match self {
            ClientMessage::Login(login) => login.decode(stream),
        }
    }
}

} // verus!
