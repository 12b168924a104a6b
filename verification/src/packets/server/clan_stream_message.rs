//! The stream of a player's club. It is sent empty.

use crate::packets::packet::{Field, FieldWriter, ServerPacket};
use vstd::prelude::*;

verus! {

/// The stream of a club without entries.
pub struct ClanStreamMessage {
    pub id: u16,
}

impl ClanStreamMessage {
    /// The message, under the packet id 24311.
    pub fn new() -> (message: Self)
        ensures
            message.id == 24311,
    {
        Self { id: 24311 }
    }
}

impl ServerPacket for ClanStreamMessage {
    open spec fn encodable(&self) -> bool {
        true
    }

    open spec fn fields(&self) -> Seq<Field> {
        seq![Field::VInt(0), Field::VInt(0)]
    }

    fn encode(&mut self) -> (bytes: Vec<u8>)
        ensures
            *final(self) == *old(self),
    {
        let mut writer = FieldWriter::new();
        writer.put_vint(0);
        writer.put_vint(0);
        assert(writer.fields@ =~= self.fields());
        writer.finish()
    }
}

} // verus!
