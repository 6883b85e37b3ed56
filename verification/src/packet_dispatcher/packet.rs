//! The packets that travel between the dispatchers of different servers.
//! On the wire a packet is a byte that names its type followed by its
//! payload.
use crate::bytes::{
    be_bytes, be_value, copy_range, decode_be, encode_be, lemma_be_bytes_len,
    lemma_be_value_bound, lemma_be_value_of_bytes, lemma_pow256_values,
};
use crate::dist_mutex::messages::Timestamp;
use crate::dist_mutex::packets::{decode_mutex_packet, mutex_packet_bytes, MutexPacket, PacketError};
use crate::packet_dispatcher::commit::TwoPhaseCommitPacket;
use crate::packet_dispatcher::commit_codec::{commit_packet_bytes, lemma_commit_packet_decode_encode, parse_commit_packet};
use vstd::prelude::*;

verus! {

pub const MUTEX_TYPE: u8 = 0;
pub const COMMIT_TYPE: u8 = 1;
pub const SYNC_REQUEST_TYPE: u8 = 2;
pub const SYNC_RESPONSE_TYPE: u8 = 3;

/// The kind of a dispatcher packet.
#[derive(PartialEq, Eq, Structural, Copy, Clone, Debug, Hash)]
pub enum PacketType {
    Mutex,
    Commit,
    SyncRequest,
    SyncResponse,
}

/// The byte that names packet type `t`.
pub open spec fn packet_type_code(t: PacketType) -> u8 {
    match t {
        PacketType::Mutex => MUTEX_TYPE,
        PacketType::Commit => COMMIT_TYPE,
        PacketType::SyncRequest => SYNC_REQUEST_TYPE,
        PacketType::SyncResponse => SYNC_RESPONSE_TYPE,
    }
}

/// The packet type that the byte `b` names, if any.
pub open spec fn packet_type_of_code(b: u8) -> Option<PacketType> {
    if b == MUTEX_TYPE {
        Some(PacketType::Mutex)
    } else if b == COMMIT_TYPE {
        Some(PacketType::Commit)
    } else if b == SYNC_REQUEST_TYPE {
        Some(PacketType::SyncRequest)
    } else if b == SYNC_RESPONSE_TYPE {
        Some(PacketType::SyncResponse)
    } else {
        None
    }
}

/// Why bytes are not a dispatcher packet.
#[derive(PartialEq, Eq, Structural, Copy, Clone, Debug)]
pub enum DispatchError {
    /// There were no bytes at all.
    Empty,
    /// The first byte names no packet type.
    InvalidType(u8),
    /// A synchronisation request must carry a 16-byte timestamp.
    InvalidSyncRequestLength(usize),
    /// A synchronisation response must carry whole 4-byte values.
    InvalidSyncResponseLength(usize),
    /// The payload of a mutex packet is not one.
    Mutex(PacketError),
    /// The payload of a commit packet is not one.
    InvalidCommit,
}

impl PacketType {
    /// The byte that names this type.
    pub fn code(self) -> (r: u8)
        ensures
            r == packet_type_code(self),
    {
        match self {
            PacketType::Mutex => MUTEX_TYPE,
            PacketType::Commit => COMMIT_TYPE,
            PacketType::SyncRequest => SYNC_REQUEST_TYPE,
            PacketType::SyncResponse => SYNC_RESPONSE_TYPE,
        }
    }

    /// The type that the byte `value` names.
    pub fn from_code(value: u8) -> (r: Result<PacketType, DispatchError>)
        ensures
            r == match packet_type_of_code(value) {
                Some(t) => Ok::<PacketType, DispatchError>(t),
                None => Err(DispatchError::InvalidType(value)),
            },
    {
        if value == MUTEX_TYPE {
            Ok(PacketType::Mutex)
        } else if value == COMMIT_TYPE {
            Ok(PacketType::Commit)
        } else if value == SYNC_REQUEST_TYPE {
            Ok(PacketType::SyncRequest)
        } else if value == SYNC_RESPONSE_TYPE {
            Ok(PacketType::SyncResponse)
        } else {
            Err(DispatchError::InvalidType(value))
        }
    }
}

impl From<PacketType> for u8 {
    fn from(value: PacketType) -> (r: u8) {
        value.code()
    }
}

impl vstd::std_specs::convert::FromSpecImpl<PacketType> for u8 {
    open spec fn obeys_from_spec() -> bool {
        true
    }

    open spec fn from_spec(v: PacketType) -> u8 {
        packet_type_code(v)
    }
}

impl TryFrom<u8> for PacketType {
    type Error = DispatchError;

    fn try_from(value: u8) -> (r: Result<PacketType, DispatchError>) {
        PacketType::from_code(value)
    }
}

impl vstd::std_specs::convert::TryFromSpecImpl<u8> for PacketType {
    open spec fn obeys_try_from_spec() -> bool {
        true
    }

    open spec fn try_from_spec(v: u8) -> Result<PacketType, DispatchError> {
        match packet_type_of_code(v) {
            Some(t) => Ok(t),
            None => Err(DispatchError::InvalidType(v)),
        }
    }
}

/// Asks another server for its database, as of `timestamp`.
#[derive(PartialEq, Eq, Structural, Copy, Clone, Debug)]
pub struct SyncRequestPacket {
    pub timestamp: Timestamp,
}

impl SyncRequestPacket {
    /// The payload: the timestamp, most significant byte first.
    pub fn to_bytes(&self) -> (r: Vec<u8>)
        ensures
            r@ == be_bytes(self.timestamp.time as nat, 16),
    {
        self.timestamp.to_be_bytes()
    }

    /// Reads the payload of a synchronisation request.
    pub fn from_bytes(data: &Vec<u8>) -> (r: Self)
        requires
            data.len() == 16,
        ensures
            r.timestamp.time == be_value(data@),
    {
        SyncRequestPacket { timestamp: Timestamp::from_be_bytes(data) }
    }
}

/// The values of a database snapshot sent in answer to a synchronisation
/// request.
#[derive(PartialEq, Eq, Debug)]
pub struct SyncResponsePacket {
    pub data: Vec<u32>,
}

/// The payload of a synchronisation response with values `data`: each value
/// in 4 bytes, most significant first.
pub open spec fn sync_response_bytes(data: Seq<u32>) -> Seq<u8>
    decreases data.len(),
{
    if data.len() == 0 {
        Seq::empty()
    } else {
        sync_response_bytes(data.drop_last()) + be_bytes(data.last() as nat, 4)
    }
}

/// The values that a payload of whole 4-byte groups holds.
pub open spec fn sync_response_values(bytes: Seq<u8>) -> Seq<u32> {
    Seq::new(bytes.len() / 4, |i: int| be_value(bytes.subrange(4 * i, 4 * i + 4)) as u32)
}

proof fn lemma_sync_response_bytes_len(data: Seq<u32>)
    ensures
        sync_response_bytes(data).len() == 4 * data.len(),
    decreases data.len(),
{
    if data.len() > 0 {
        lemma_sync_response_bytes_len(data.drop_last());
        lemma_be_bytes_len(data.last() as nat, 4);
    }
}

proof fn lemma_sync_response_bytes_chunk(data: Seq<u32>, i: int)
    requires
        0 <= i < data.len(),
    ensures
        sync_response_bytes(data).len() == 4 * data.len(),
        sync_response_bytes(data).subrange(4 * i, 4 * i + 4) == be_bytes(data[i] as nat, 4),
    decreases data.len(),
{
    lemma_sync_response_bytes_len(data);
    let prefix = sync_response_bytes(data.drop_last());
    lemma_sync_response_bytes_len(data.drop_last());
    lemma_be_bytes_len(data.last() as nat, 4);
    if i < data.len() - 1 {
        lemma_sync_response_bytes_chunk(data.drop_last(), i);
        assert(sync_response_bytes(data).subrange(4 * i, 4 * i + 4) =~= prefix.subrange(4 * i, 4 * i + 4));
    } else {
        assert(sync_response_bytes(data).subrange(4 * i, 4 * i + 4) =~= be_bytes(data.last() as nat, 4));
    }
}

impl SyncResponsePacket {
    /// The payload: each value in 4 bytes, most significant first.
    pub fn to_bytes(&self) -> (r: Vec<u8>)
        ensures
            r@ == sync_response_bytes(self.data@),
    {
        let mut out: Vec<u8> = Vec::new();
        let mut i: usize = 0;
        while i < self.data.len()
            invariant
                i <= self.data.len(),
                out@ == sync_response_bytes(self.data@.subrange(0, i as int)),
            decreases self.data.len() - i,
        {
            proof {
                assert(self.data@.subrange(0, i + 1).drop_last() =~= self.data@.subrange(0, i as int));
            }
            let mut value_bytes = encode_be(self.data[i] as u128, 4);
            out.append(&mut value_bytes);
            i = i + 1;
        }
        proof {
            assert(self.data@.subrange(0, self.data.len() as int) =~= self.data@);
        }
        out
    }

    /// Reads the payload of a synchronisation response: one value for each
    /// group of 4 bytes.
    pub fn from_bytes(data: &Vec<u8>) -> (r: Self)
        requires
            data.len() % 4 == 0,
        ensures
            r.data@ == sync_response_values(data@),
    {
        let mut values: Vec<u32> = Vec::new();
        let mut i: usize = 0;
        while i < data.len() / 4
            invariant
                data.len() % 4 == 0,
                i <= data.len() / 4,
                values@ =~= sync_response_values(data@).subrange(0, i as int),
            decreases data.len() / 4 - i,
        {
            let value = decode_be(data, 4 * i, 4 * i + 4);
            proof {
                lemma_be_value_bound(data@.subrange(4 * i, 4 * i + 4));
                lemma_pow256_values();
            }
            values.push(value as u32);
            i = i + 1;
        }
        SyncResponsePacket { data: values }
    }
}

/// Writing out values and reading them back gives the same values.
pub proof fn lemma_sync_response_round_trip(data: Seq<u32>)
    ensures
        sync_response_values(sync_response_bytes(data)) == data,
{
    lemma_sync_response_bytes_len(data);
    lemma_pow256_values();
    assert forall|i: int| 0 <= i < data.len() implies #[trigger] sync_response_values(sync_response_bytes(data))[i] == data[i] by {
        lemma_sync_response_bytes_chunk(data, i);
        lemma_be_value_of_bytes(data[i] as nat, 4);
    }
    assert(sync_response_values(sync_response_bytes(data)) =~= data);
}

/// A packet between dispatchers.
#[derive(PartialEq, Eq, Debug)]
pub enum Packet {
    Mutex(MutexPacket),
    Commit(TwoPhaseCommitPacket),
    SyncRequest(SyncRequestPacket),
    SyncResponse(SyncResponsePacket),
}

/// The bytes of a mutex packet sent to another dispatcher: the mutex type
/// byte, then the packet.
pub open spec fn dispatched_mutex_bytes(p: MutexPacket) -> Seq<u8> {
    seq![MUTEX_TYPE] + mutex_packet_bytes(p)
}

/// The bytes of a mutex packet as sent to another dispatcher.
pub fn encode_mutex_for_dispatch(packet: &MutexPacket) -> (r: Vec<u8>)
    ensures
        r@ == dispatched_mutex_bytes(*packet),
{
    let mut data = packet.to_bytes();
    data.insert(0, PacketType::Mutex.code());
    proof {
        assert(data@ =~= dispatched_mutex_bytes(*packet));
    }
    data
}

/// The bytes of a packet: its type byte, then its payload.
pub fn encode_packet(packet: &Packet) -> (r: Vec<u8>)
    ensures
        match packet {
            Packet::Mutex(p) => r@ == dispatched_mutex_bytes(*p),
            Packet::Commit(p) => r@ == seq![COMMIT_TYPE] + commit_packet_bytes(*p),
            Packet::SyncRequest(p) => r@ == seq![SYNC_REQUEST_TYPE] + be_bytes(p.timestamp.time as nat, 16),
            Packet::SyncResponse(p) => r@ == seq![SYNC_RESPONSE_TYPE] + sync_response_bytes(p.data@),
        },
{
    let (code, mut payload) = match packet {
        Packet::Mutex(p) => (MUTEX_TYPE, p.to_bytes()),
        Packet::Commit(p) => (COMMIT_TYPE, p.to_bytes()),
        Packet::SyncRequest(p) => (SYNC_REQUEST_TYPE, p.to_bytes()),
        Packet::SyncResponse(p) => (SYNC_RESPONSE_TYPE, p.to_bytes()),
    };
    let mut out = Vec::new();
    out.push(code);
    out.append(&mut payload);
    out
}

/// Reads a packet from the bytes that another dispatcher sent.
pub fn decode_packet(bytes: &Vec<u8>) -> (r: Result<Packet, DispatchError>)
    ensures
        bytes@.len() == 0 ==> r == Err::<Packet, DispatchError>(DispatchError::Empty),
        bytes@.len() > 0 ==> match packet_type_of_code(bytes@[0]) {
            None => r == Err::<Packet, DispatchError>(DispatchError::InvalidType(bytes@[0])),
            Some(PacketType::Mutex) => match decode_mutex_packet(bytes@.subrange(1, bytes@.len() as int)) {
                Ok(p) => r == Ok::<Packet, DispatchError>(Packet::Mutex(p)),
                Err(e) => r == Err::<Packet, DispatchError>(DispatchError::Mutex(e)),
            },
            Some(PacketType::Commit) => match parse_commit_packet(bytes@.subrange(1, bytes@.len() as int)) {
                Some(p) => r == Ok::<Packet, DispatchError>(Packet::Commit(p)),
                None => r == Err::<Packet, DispatchError>(DispatchError::InvalidCommit),
            },
            Some(PacketType::SyncRequest) => if bytes@.len() == 17 {
                r == Ok::<Packet, DispatchError>(Packet::SyncRequest(SyncRequestPacket {
                    timestamp: Timestamp { time: be_value(bytes@.subrange(1, 17)) as u128 },
                }))
            } else {
                r == Err::<Packet, DispatchError>(DispatchError::InvalidSyncRequestLength((bytes@.len() - 1) as usize))
            },
            Some(PacketType::SyncResponse) => if (bytes@.len() - 1) % 4 == 0 {
                r matches Ok(Packet::SyncResponse(p)) && p.data@ == sync_response_values(bytes@.subrange(1, bytes@.len() as int))
            } else {
                r == Err::<Packet, DispatchError>(DispatchError::InvalidSyncResponseLength((bytes@.len() - 1) as usize))
            },
        },
{
    if bytes.len() == 0 {
        return Err(DispatchError::Empty);
    }
    let packet_type = match PacketType::from_code(bytes[0]) {
        Ok(t) => t,
        Err(e) => return Err(e),
    };
    let payload = copy_range(bytes, 1, bytes.len());
    match packet_type {
        PacketType::Mutex => match MutexPacket::from_bytes(payload) {
            Ok(p) => Ok(Packet::Mutex(p)),
            Err(e) => Err(DispatchError::Mutex(e)),
        },
        PacketType::Commit => match TwoPhaseCommitPacket::from_bytes(&payload) {
            Some(p) => Ok(Packet::Commit(p)),
            None => Err(DispatchError::InvalidCommit),
        },
        PacketType::SyncRequest => {
            if payload.len() != 16 {
                return Err(DispatchError::InvalidSyncRequestLength(payload.len()));
            }
            let p = SyncRequestPacket::from_bytes(&payload);
            Ok(Packet::SyncRequest(p))
        },
        PacketType::SyncResponse => {
            if payload.len() % 4 != 0 {
                return Err(DispatchError::InvalidSyncResponseLength(payload.len()));
            }
            Ok(Packet::SyncResponse(SyncResponsePacket::from_bytes(&payload)))
        },
    }
}

/// A mutex packet sent to another dispatcher is read back as itself.
pub proof fn lemma_dispatched_mutex_round_trip(p: MutexPacket)
    ensures
        dispatched_mutex_bytes(p).len() > 0,
        packet_type_of_code(dispatched_mutex_bytes(p)[0]) == Some(PacketType::Mutex),
        decode_mutex_packet(dispatched_mutex_bytes(p).subrange(1, dispatched_mutex_bytes(p).len() as int))
            == Ok::<MutexPacket, PacketError>(p),
{
    let b = dispatched_mutex_bytes(p);
    assert(b.subrange(1, b.len() as int) =~= mutex_packet_bytes(p));
    crate::dist_mutex::packets::lemma_decode_encode(p);
}

/// A commit packet sent to another dispatcher is read back as itself.
pub proof fn lemma_dispatched_commit_round_trip(p: TwoPhaseCommitPacket)
    ensures
        ({
            let b = seq![COMMIT_TYPE] + commit_packet_bytes(p);
            &&& b.len() > 0
            &&& packet_type_of_code(b[0]) == Some(PacketType::Commit)
            &&& parse_commit_packet(b.subrange(1, b.len() as int)) == Some(p)
        }),
{
    let b = seq![COMMIT_TYPE] + commit_packet_bytes(p);
    assert(b.subrange(1, b.len() as int) =~= commit_packet_bytes(p));
    lemma_commit_packet_decode_encode(p);
}

} // verus!
