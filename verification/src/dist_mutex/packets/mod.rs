//! The byte format of the packets that the distributed mutexes of different
//! servers exchange. Each packet starts with a byte that names its type,
//! followed by the resource id in 4 bytes, most significant first; a request
//! adds its timestamp in 16 bytes.
use crate::bytes::{
    be_bytes, be_value, decode_be, encode_be, lemma_be_bytes_len, lemma_be_bytes_of_value,
    lemma_be_value_bound, lemma_be_value_of_bytes, lemma_pow256_values,
};
use vstd::prelude::*;

mod ack;
mod ok;
mod release;
mod request;

pub use ack::{decode_ack_packet, AckPacket};
pub use ok::{decode_ok_packet, OkPacket};
pub use release::{decode_release_packet, ReleasePacket};
pub use request::{decode_request_packet, request_bytes, RequestPacket};

verus! {

pub const MUTEX_REQUEST_TYPE: u8 = 0;
pub const MUTEX_ACK_TYPE: u8 = 1;
pub const MUTEX_OK_TYPE: u8 = 2;
pub const MUTEX_RELEASE_TYPE: u8 = 3;

/// Length in bytes of a packet that carries only a resource id.
pub const ID_ONLY_PACKET_LEN: usize = 5;

/// Length in bytes of a request packet.
pub const REQUEST_PACKET_LEN: usize = 21;

/// Identifier of a resource (a user account) protected by a distributed mutex.
#[derive(PartialEq, Eq, Structural, Copy, Clone, Debug, Hash)]
pub struct ResourceId {
    pub id: u32,
}

impl ResourceId {
    pub fn new(id: u32) -> (r: Self)
        ensures
            r.id == id,
    {
        ResourceId { id }
    }

    /// The 4 bytes of the id, most significant first.
    pub fn to_be_bytes(&self) -> (r: Vec<u8>)
        ensures
            r@ == be_bytes(self.id as nat, 4),
    {
        encode_be(self.id as u128, 4)
    }
}

/// The kind of a mutex packet.
#[derive(PartialEq, Eq, Structural, Copy, Clone, Debug, Hash)]
pub enum MutexPacketType {
    Request,
    Okay,
    Ack,
    Release,
}

/// Why a byte sequence is not a packet of the expected kind.
#[derive(PartialEq, Eq, Structural, Copy, Clone, Debug)]
pub enum PacketError {
    /// There were no bytes at all.
    Empty,
    /// The packet has `actual_len` bytes where its type needs `expected_len`.
    InvalidLength { expected_len: usize, actual_len: usize },
    /// The first byte names no packet type.
    UnknownType(u8),
    /// The first byte names another packet type than the one expected.
    UnexpectedType { expected: MutexPacketType, found: MutexPacketType },
}

/// The byte that starts a packet of type `t`.
pub open spec fn type_code(t: MutexPacketType) -> u8 {
    match t {
        MutexPacketType::Request => MUTEX_REQUEST_TYPE,
        MutexPacketType::Ack => MUTEX_ACK_TYPE,
        MutexPacketType::Okay => MUTEX_OK_TYPE,
        MutexPacketType::Release => MUTEX_RELEASE_TYPE,
    }
}

/// The packet type that the byte `b` names, if any.
pub open spec fn type_of_code(b: u8) -> Result<MutexPacketType, PacketError> {
    if b == MUTEX_REQUEST_TYPE {
        Ok(MutexPacketType::Request)
    } else if b == MUTEX_ACK_TYPE {
        Ok(MutexPacketType::Ack)
    } else if b == MUTEX_OK_TYPE {
        Ok(MutexPacketType::Okay)
    } else if b == MUTEX_RELEASE_TYPE {
        Ok(MutexPacketType::Release)
    } else {
        Err(PacketError::UnknownType(b))
    }
}

impl MutexPacketType {
    /// The byte that starts a packet of this type.
    pub fn code(self) -> (r: u8)
        ensures
            r == type_code(self),
    {
        match self {
            MutexPacketType::Request => MUTEX_REQUEST_TYPE,
            MutexPacketType::Ack => MUTEX_ACK_TYPE,
            MutexPacketType::Okay => MUTEX_OK_TYPE,
            MutexPacketType::Release => MUTEX_RELEASE_TYPE,
        }
    }

    /// The packet type that the byte `value` names.
    pub fn from_code(value: u8) -> (r: Result<MutexPacketType, PacketError>)
        ensures
            r == type_of_code(value),
    {
        if value == MUTEX_REQUEST_TYPE {
            Ok(MutexPacketType::Request)
        } else if value == MUTEX_ACK_TYPE {
            Ok(MutexPacketType::Ack)
        } else if value == MUTEX_OK_TYPE {
            Ok(MutexPacketType::Okay)
        } else if value == MUTEX_RELEASE_TYPE {
            Ok(MutexPacketType::Release)
        } else {
            Err(PacketError::UnknownType(value))
        }
    }
}

impl From<MutexPacketType> for u8 {
    fn from(packet_type: MutexPacketType) -> (r: u8) {
        packet_type.code()
    }
}

impl vstd::std_specs::convert::FromSpecImpl<MutexPacketType> for u8 {
    open spec fn obeys_from_spec() -> bool {
        true
    }

    open spec fn from_spec(v: MutexPacketType) -> u8 {
        type_code(v)
    }
}

impl TryFrom<u8> for MutexPacketType {
    type Error = PacketError;

    fn try_from(value: u8) -> (r: Result<MutexPacketType, PacketError>) {
        MutexPacketType::from_code(value)
    }
}

impl vstd::std_specs::convert::TryFromSpecImpl<u8> for MutexPacketType {
    open spec fn obeys_try_from_spec() -> bool {
        true
    }

    open spec fn try_from_spec(v: u8) -> Result<MutexPacketType, PacketError> {
        type_of_code(v)
    }
}

/// The bytes of a packet of type `t` that carries only the resource id `id`.
pub open spec fn id_only_bytes(t: MutexPacketType, id: u32) -> Seq<u8> {
    seq![type_code(t)] + be_bytes(id as nat, 4)
}

/// What reading `bytes` as a packet of type `expected` that carries only a
/// resource id gives: the id, or why the bytes are no such packet. The
/// length is checked first, then the type byte.
pub open spec fn decode_id_only(bytes: Seq<u8>, expected: MutexPacketType) -> Result<ResourceId, PacketError> {
    if bytes.len() != ID_ONLY_PACKET_LEN {
        Err(PacketError::InvalidLength { expected_len: ID_ONLY_PACKET_LEN, actual_len: bytes.len() as usize })
    } else {
        match type_of_code(bytes[0]) {
            Err(e) => Err(e),
            Ok(t) => if t != expected {
                Err(PacketError::UnexpectedType { expected, found: t })
            } else {
                Ok(ResourceId { id: be_value(bytes.subrange(1, 5)) as u32 })
            },
        }
    }
}

/// The bytes of a packet of type `t` that carries only `id`.
pub fn encode_mutex_packet_with_only_id(t: MutexPacketType, id: ResourceId) -> (r: Vec<u8>)
    ensures
        r@ == id_only_bytes(t, id.id),
{
    let mut buffer = Vec::new();
    buffer.push(t.code());
    let mut id_bytes = id.to_be_bytes();
    buffer.append(&mut id_bytes);
    buffer
}

/// Reads a packet of type `expected` that carries only a resource id.
pub fn decode_mutex_packet_with_only_id(packet_bytes: Vec<u8>, expected_type: MutexPacketType) -> (r: Result<ResourceId, PacketError>)
    ensures
        r == decode_id_only(packet_bytes@, expected_type),
{
    if packet_bytes.len() != ID_ONLY_PACKET_LEN {
        return Err(PacketError::InvalidLength { expected_len: ID_ONLY_PACKET_LEN, actual_len: packet_bytes.len() });
    }
    let packet_type = match MutexPacketType::from_code(packet_bytes[0]) {
        Ok(t) => t,
        Err(e) => return Err(e),
    };
    if packet_type != expected_type {
        return Err(PacketError::UnexpectedType { expected: expected_type, found: packet_type });
    }
    let id = decode_be(&packet_bytes, 1, 5);
    proof {
        crate::bytes::lemma_be_value_bound(packet_bytes@.subrange(1, 5));
        crate::bytes::lemma_pow256_values();
    }
    Ok(ResourceId { id: id as u32 })
}

/// A packet that one distributed mutex sends to another.
#[derive(PartialEq, Eq, Structural, Copy, Clone, Debug)]
pub enum MutexPacket {
    Request(RequestPacket),
    Okay(OkPacket),
    Ack(AckPacket),
    Release(ReleasePacket),
}

/// The bytes of a mutex packet.
pub open spec fn mutex_packet_bytes(p: MutexPacket) -> Seq<u8> {
    match p {
        MutexPacket::Request(r) => request_bytes(r.id.id, r.timestamp.time),
        MutexPacket::Okay(o) => id_only_bytes(MutexPacketType::Okay, o.id.id),
        MutexPacket::Ack(a) => id_only_bytes(MutexPacketType::Ack, a.id.id),
        MutexPacket::Release(r) => id_only_bytes(MutexPacketType::Release, r.id.id),
    }
}

/// What reading `bytes` as a mutex packet gives: the first byte picks the
/// type, and the whole of `bytes` must then be a packet of that type.
pub open spec fn decode_mutex_packet(bytes: Seq<u8>) -> Result<MutexPacket, PacketError> {
    if bytes.len() == 0 {
        Err(PacketError::Empty)
    } else {
        match type_of_code(bytes[0]) {
            Err(e) => Err(e),
            Ok(MutexPacketType::Request) => match decode_request_packet(bytes) {
                Ok(r) => Ok(MutexPacket::Request(r)),
                Err(e) => Err(e),
            },
            Ok(MutexPacketType::Okay) => match decode_ok_packet(bytes) {
                Ok(o) => Ok(MutexPacket::Okay(o)),
                Err(e) => Err(e),
            },
            Ok(MutexPacketType::Ack) => match decode_ack_packet(bytes) {
                Ok(a) => Ok(MutexPacket::Ack(a)),
                Err(e) => Err(e),
            },
            Ok(MutexPacketType::Release) => match decode_release_packet(bytes) {
                Ok(r) => Ok(MutexPacket::Release(r)),
                Err(e) => Err(e),
            },
        }
    }
}

impl MutexPacket {
    /// The bytes of the packet.
    pub fn to_bytes(&self) -> (r: Vec<u8>)
        ensures
            r@ == mutex_packet_bytes(*self),
    {
        match self {
            MutexPacket::Request(p) => p.to_bytes(),
            MutexPacket::Okay(p) => p.to_bytes(),
            MutexPacket::Ack(p) => p.to_bytes(),
            MutexPacket::Release(p) => p.to_bytes(),
        }
    }

    /// Reads a mutex packet of any type from `value`.
    pub fn from_bytes(value: Vec<u8>) -> (r: Result<Self, PacketError>)
        ensures
            r == decode_mutex_packet(value@),
    {
        if value.len() == 0 {
            return Err(PacketError::Empty);
        }
        let packet_type = match MutexPacketType::from_code(value[0]) {
            Ok(t) => t,
            Err(e) => return Err(e),
        };
        match packet_type {
            MutexPacketType::Request => match RequestPacket::from_bytes(&value) {
                Ok(r) => Ok(MutexPacket::Request(r)),
                Err(e) => Err(e),
            },
            MutexPacketType::Okay => match decode_mutex_packet_with_only_id(value, MutexPacketType::Okay) {
                Ok(id) => Ok(MutexPacket::Okay(OkPacket { id })),
                Err(e) => Err(e),
            },
            MutexPacketType::Ack => match decode_mutex_packet_with_only_id(value, MutexPacketType::Ack) {
                Ok(id) => Ok(MutexPacket::Ack(AckPacket { id })),
                Err(e) => Err(e),
            },
            MutexPacketType::Release => match decode_mutex_packet_with_only_id(value, MutexPacketType::Release) {
                Ok(id) => Ok(MutexPacket::Release(ReleasePacket { id })),
                Err(e) => Err(e),
            },
        }
    }
}

impl TryFrom<Vec<u8>> for MutexPacket {
    type Error = PacketError;

    fn try_from(value: Vec<u8>) -> (r: Result<Self, PacketError>) {
        MutexPacket::from_bytes(value)
    }
}

impl vstd::std_specs::convert::TryFromSpecImpl<Vec<u8>> for MutexPacket {
    open spec fn obeys_try_from_spec() -> bool {
        true
    }

    open spec fn try_from_spec(v: Vec<u8>) -> Result<Self, PacketError> {
        decode_mutex_packet(v@)
    }
}

/// Reading back the bytes of any mutex packet gives that packet.
pub proof fn lemma_decode_encode(p: MutexPacket)
    ensures
        decode_mutex_packet(mutex_packet_bytes(p)) == Ok::<MutexPacket, PacketError>(p),
{
    let b = mutex_packet_bytes(p);
    lemma_pow256_values();
    match p {
        MutexPacket::Request(r) => {
            lemma_be_bytes_len(r.id.id as nat, 4);
            lemma_be_bytes_len(r.timestamp.time as nat, 16);
            lemma_be_value_of_bytes(r.id.id as nat, 4);
            lemma_be_value_of_bytes(r.timestamp.time as nat, 16);
            assert(b.subrange(1, 5) =~= be_bytes(r.id.id as nat, 4));
            assert(b.subrange(5, 21) =~= be_bytes(r.timestamp.time as nat, 16));
        },
        MutexPacket::Okay(o) => lemma_decode_id_only_bytes(MutexPacketType::Okay, o.id.id),
        MutexPacket::Ack(a) => lemma_decode_id_only_bytes(MutexPacketType::Ack, a.id.id),
        MutexPacket::Release(r) => lemma_decode_id_only_bytes(MutexPacketType::Release, r.id.id),
    }
}

/// The bytes of a packet that carries only an id read back as that id, for
/// the packet's own type.
pub proof fn lemma_decode_id_only_bytes(t: MutexPacketType, id: u32)
    ensures
        id_only_bytes(t, id).len() == ID_ONLY_PACKET_LEN,
        id_only_bytes(t, id)[0] == type_code(t),
        decode_id_only(id_only_bytes(t, id), t) == Ok::<ResourceId, PacketError>(ResourceId { id }),
{
    let b = id_only_bytes(t, id);
    lemma_pow256_values();
    lemma_be_bytes_len(id as nat, 4);
    lemma_be_value_of_bytes(id as nat, 4);
    assert(b.subrange(1, 5) =~= be_bytes(id as nat, 4));
}

/// Bytes that read as a mutex packet are exactly the bytes of that packet:
/// each packet has one encoding.
pub proof fn lemma_encode_decode(bytes: Seq<u8>)
    requires
        decode_mutex_packet(bytes) is Ok,
    ensures
        mutex_packet_bytes(decode_mutex_packet(bytes)->Ok_0) =~= bytes,
{
    lemma_pow256_values();
    let t = type_of_code(bytes[0])->Ok_0;
    if t == MutexPacketType::Request {
        let a = bytes.subrange(1, 5);
        let c = bytes.subrange(5, 21);
        lemma_be_value_bound(a);
        lemma_be_value_bound(c);
        lemma_be_bytes_of_value(a);
        lemma_be_bytes_of_value(c);
        assert(bytes =~= seq![bytes[0]] + a + c);
    } else {
        let a = bytes.subrange(1, 5);
        lemma_be_value_bound(a);
        lemma_be_bytes_of_value(a);
        assert(bytes =~= seq![bytes[0]] + a);
    }
}

} // verus!
