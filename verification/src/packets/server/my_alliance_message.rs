//! The club a player belongs to. It is sent for a player without a club.

use crate::packets::packet::{Field, FieldWriter, ServerPacket};
use vstd::prelude::*;

verus! {

/// The club of a player who has none.
pub struct MyAllianceMessage {
    pub id: u16,
}

impl MyAllianceMessage {
    /// The message, under the packet id 24311.
    pub fn new() -> (message: Self)
        ensures
            message.id == 24311,
    {
        Self { id: 24311 }
    }
}

impl ServerPacket for MyAllianceMessage {
    open spec fn encodable(&self) -> bool {
        true
    }

    open spec fn fields(&self) -> Seq<Field> {
        seq![Field::VInt(0), Field::Boolean(false)]
    }

    fn encode(&mut self) -> (bytes: Vec<u8>)
        ensures
            *final(self) == *old(self),
    {
        let mut writer = FieldWriter::new();
        writer.put_vint(0);
        writer.put_boolean(false);
        assert(writer.fields@ =~= self.fields());
        writer.finish()
    }
}

} // verus!
