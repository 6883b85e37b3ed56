//! The Ack packet of the distributed mutex.
use super::{
    decode_id_only, decode_mutex_packet_with_only_id, encode_mutex_packet_with_only_id,
    id_only_bytes, MutexPacketType, PacketError, ResourceId,
};
use vstd::prelude::*;

verus! {

#[derive(PartialEq, Eq, Structural, Copy, Clone, Debug)]
pub struct AckPacket {
    pub id: ResourceId,
}

impl AckPacket {
    pub fn new(id: ResourceId) -> (r: Self)
        ensures
            r.id == id,
    {
        Self { id }
    }

    pub fn id(&self) -> (r: ResourceId)
        ensures
            r == self.id,
    {
        self.id
    }

    /// The bytes of the packet: its type byte, then the id.
    pub fn to_bytes(&self) -> (r: Vec<u8>)
        ensures
            r@ == id_only_bytes(MutexPacketType::Ack, self.id.id),
    {
        encode_mutex_packet_with_only_id(MutexPacketType::Ack, self.id)
    }
}

/// What reading `bytes` as a Ack packet gives.
pub open spec fn decode_ack_packet(bytes: Seq<u8>) -> Result<AckPacket, PacketError> {
    match decode_id_only(bytes, MutexPacketType::Ack) {
        Ok(id) => Ok(AckPacket { id }),
        Err(e) => Err(e),
    }
}

impl TryFrom<Vec<u8>> for AckPacket {
    type Error = PacketError;

    fn try_from(value: Vec<u8>) -> (r: Result<Self, PacketError>) {
        match decode_mutex_packet_with_only_id(value, MutexPacketType::Ack) {
            Ok(id) => Ok(Self { id }),
            Err(e) => Err(e),
        }
    }
}

impl vstd::std_specs::convert::TryFromSpecImpl<Vec<u8>> for AckPacket {
    open spec fn obeys_try_from_spec() -> bool {
        true
    }

    open spec fn try_from_spec(v: Vec<u8>) -> Result<Self, PacketError> {
        decode_ack_packet(v@)
    }
}

} // verus!
