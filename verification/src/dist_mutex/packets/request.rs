//! The request packet: a server asks for the mutex of a resource.
use super::{type_code, type_of_code, MutexPacketType, PacketError, ResourceId, REQUEST_PACKET_LEN};
use crate::bytes::{be_bytes, be_value, decode_be};
use crate::dist_mutex::messages::Timestamp;
use vstd::prelude::*;

verus! {

#[derive(PartialEq, Eq, Structural, Copy, Clone, Debug)]
pub struct RequestPacket {
    pub id: ResourceId,
    pub timestamp: Timestamp,
}

/// The bytes of a request: its type byte, the id, then the timestamp.
pub open spec fn request_bytes(id: u32, time: u128) -> Seq<u8> {
    seq![type_code(MutexPacketType::Request)] + be_bytes(id as nat, 4) + be_bytes(time as nat, 16)
}

/// What reading `bytes` as a request packet gives. The length is checked
/// first, then the type byte.
pub open spec fn decode_request_packet(bytes: Seq<u8>) -> Result<RequestPacket, PacketError> {
    if bytes.len() != REQUEST_PACKET_LEN {
        Err(PacketError::InvalidLength { expected_len: REQUEST_PACKET_LEN, actual_len: bytes.len() as usize })
    } else {
        match type_of_code(bytes[0]) {
            Err(e) => Err(e),
            Ok(t) => if t != MutexPacketType::Request {
                Err(PacketError::UnexpectedType { expected: MutexPacketType::Request, found: t })
            } else {
                Ok(RequestPacket {
                    id: ResourceId { id: be_value(bytes.subrange(1, 5)) as u32 },
                    timestamp: Timestamp { time: be_value(bytes.subrange(5, 21)) as u128 },
                })
            },
        }
    }
}

impl RequestPacket {
    pub fn new(id: ResourceId, timestamp: Timestamp) -> (r: Self)
        ensures
            r.id == id,
            r.timestamp == timestamp,
    {
        Self { id, timestamp }
    }

    pub fn id(&self) -> (r: ResourceId)
        ensures
            r == self.id,
    {
        self.id
    }

    pub fn timestamp(&self) -> (r: Timestamp)
        ensures
            r == self.timestamp,
    {
        self.timestamp
    }

    /// The bytes of the packet.
    pub fn to_bytes(&self) -> (r: Vec<u8>)
        ensures
            r@ == request_bytes(self.id.id, self.timestamp.time),
    {
        let mut buffer = Vec::new();
        buffer.push(MutexPacketType::Request.code());
        let mut id_bytes = self.id.to_be_bytes();
        buffer.append(&mut id_bytes);
        let mut time_bytes = self.timestamp.to_be_bytes();
        buffer.append(&mut time_bytes);
        buffer
    }

    /// Reads a request packet from `value`.
    pub fn from_bytes(value: &Vec<u8>) -> (r: Result<Self, PacketError>)
        ensures
            r == decode_request_packet(value@),
    {
        if value.len() != REQUEST_PACKET_LEN {
            return Err(PacketError::InvalidLength { expected_len: REQUEST_PACKET_LEN, actual_len: value.len() });
        }
        let packet_type = match MutexPacketType::from_code(value[0]) {
            Ok(t) => t,
            Err(e) => return Err(e),
        };
        if packet_type != MutexPacketType::Request {
            return Err(PacketError::UnexpectedType { expected: MutexPacketType::Request, found: packet_type });
        }
        let id = decode_be(value, 1, 5);
        let time = decode_be(value, 5, 21);
        proof {
            crate::bytes::lemma_be_value_bound(value@.subrange(1, 5));
            crate::bytes::lemma_pow256_values();
        }
        Ok(Self { id: ResourceId { id: id as u32 }, timestamp: Timestamp { time } })
    }
}

impl TryFrom<Vec<u8>> for RequestPacket {
    type Error = PacketError;

    fn try_from(value: Vec<u8>) -> (r: Result<Self, PacketError>) {
        RequestPacket::from_bytes(&value)
    }
}

impl vstd::std_specs::convert::TryFromSpecImpl<Vec<u8>> for RequestPacket {
    open spec fn obeys_try_from_spec() -> bool {
        true
    }

    open spec fn try_from_spec(v: Vec<u8>) -> Result<Self, PacketError> {
        decode_request_packet(v@)
    }
}

} // verus!
