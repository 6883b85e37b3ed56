//! Timestamps that order the requests for a distributed mutex.
use crate::bytes::{
    be_bytes, be_value, decode_be, encode_be, lemma_be_bytes_len, lemma_be_bytes_of_value,
    lemma_be_value_bound, lemma_be_value_of_bytes, lemma_pow256_values,
};
use crate::dist_mutex::packets::{AckPacket, OkPacket, RequestPacket};
use crate::server_id::ServerId;
use vstd::prelude::*;

verus! {

/// Milliseconds since the Unix epoch at which a server began to wait for a
/// mutex. Between two requests, the older timestamp has priority.
#[derive(PartialEq, Eq, Structural, PartialOrd, Ord, Copy, Clone, Debug, Hash)]
pub struct Timestamp {
    pub time: u128,
}

#[verifier::external_type_specification]
#[verifier::external_body]
pub struct ExSystemTime(std::time::SystemTime);

/// The time now on the system clock: `std::time::SystemTime::now()`. It
/// depends on the machine, so nothing is stated of it.
#[verifier::external_body]
fn clock_now() -> (t: std::time::SystemTime) {
    std::time::SystemTime::now()
}

/// How long after the Unix epoch `t` is: `SystemTime::duration_since`
/// with `UNIX_EPOCH`, `None` when `t` is before the epoch (the call's
/// error). `SystemTime` is opaque here, so nothing ties the result to `t`.
#[verifier::external_body]
fn since_epoch(t: &std::time::SystemTime) -> (r: Option<std::time::Duration>) {
    t.duration_since(std::time::UNIX_EPOCH).ok()
}

/// The whole seconds of `d`: `Duration::as_secs`. `Duration` is opaque
/// here, so nothing ties the result to `d`.
#[verifier::external_body]
fn duration_secs(d: &std::time::Duration) -> (r: u64) {
    d.as_secs()
}

/// The fractional part of `d` in whole milliseconds:
/// `Duration::subsec_millis`, which its documentation states is below one
/// thousand.
#[verifier::external_body]
fn duration_subsec_millis(d: &std::time::Duration) -> (r: u32)
    ensures
        r < 1000,
{
    d.subsec_millis()
}

/// The whole milliseconds of a duration of `secs` seconds and
/// `subsec_millis` further milliseconds.
pub fn millis_of(secs: u64, subsec_millis: u32) -> (r: u128)
    requires
        subsec_millis < 1000,
    ensures
        r == secs * 1000 + subsec_millis,
{
    secs as u128 * 1000 + subsec_millis as u128
}

/// The timestamp of a clock reading: its milliseconds since the epoch, or 0
/// for a clock set before the epoch (`None`).
pub fn timestamp_from_clock(reading: Option<u128>) -> (r: u128)
    ensures
        r == match reading {
            Some(t) => t,
            None => 0,
        },
{
    match reading {
        Some(t) => t,
        None => 0,
    }
}

/// The largest timestamp a clock reading gives: the last millisecond of the
/// largest whole second a `Duration` holds.
pub open spec fn max_clock_millis() -> int {
    u64::MAX * 1000 + 999
}

/// Milliseconds since the Unix epoch, now; 0 for a clock set before the epoch.
/// The reading itself comes from the machine's clock: only its range is
/// stated.
pub fn get_timestamp() -> (r: u128)
    ensures
        r <= max_clock_millis(),
{
    let now = clock_now();
    let reading = match since_epoch(&now) {
        Some(d) => Some(millis_of(duration_secs(&d), duration_subsec_millis(&d))),
        None => None,
    };
    timestamp_from_clock(reading)
}

impl Timestamp {
    /// The current time.
    pub fn new() -> (r: Self)
        ensures
            r.time <= max_clock_millis(),
    {
        Timestamp { time: get_timestamp() }
    }

    /// A timestamp at the given millisecond.
    pub fn from_millis(time: u128) -> (r: Self)
        ensures
            r.time == time,
    {
        Timestamp { time }
    }

    /// The 16 bytes of the timestamp, most significant first.
    pub fn to_be_bytes(&self) -> (r: Vec<u8>)
        ensures
            r@ == be_bytes(self.time as nat, 16),
    {
        encode_be(self.time, 16)
    }

    /// The timestamp written in `bytes`, most significant byte first.
    pub fn from_be_bytes(bytes: &Vec<u8>) -> (r: Self)
        requires
            bytes.len() == 16,
        ensures
            r.time == be_value(bytes@),
    {
        proof {
            assert(bytes@.subrange(0, 16) =~= bytes@);
        }
        Timestamp { time: decode_be(bytes, 0, 16) }
    }

    /// Whether `self` is strictly later than `other`.
    pub fn is_after(&self, other: &Timestamp) -> (r: bool)
        ensures
            r == (self.time > other.time),
    {
        self.time > other.time
    }
}

impl Default for Timestamp {
    /// The current time.
    fn default() -> (r: Self)
        ensures
            r.time <= max_clock_millis(),
    {
        Timestamp::new()
    }
}

/// The timestamp written in 16 bytes, most significant first.
pub open spec fn timestamp_of_array(bytes: [u8; 16]) -> Timestamp {
    Timestamp { time: be_value(bytes@) as u128 }
}

/// The 16 bytes of timestamp `t`, most significant first.
pub open spec fn array_of_timestamp(t: Timestamp) -> [u8; 16] {
    choose|a: [u8; 16]| a@ == be_bytes(t.time as nat, 16)
}

/// An array whose first `n` bytes are those of `s`.
spec fn array_with_prefix(s: Seq<u8>, n: nat) -> [u8; 16]
    decreases n,
{
    if n == 0 {
        vstd::array::spec_array_fill_for_copy_type::<u8, 16>(0u8)
    } else {
        vstd::array::spec_array_update(array_with_prefix(s, (n - 1) as nat), n - 1, s[n - 1])
    }
}

proof fn lemma_array_with_prefix(s: Seq<u8>, n: nat)
    requires
        n <= 16,
    ensures
        forall|j: int| 0 <= j < n ==> #[trigger] array_with_prefix(s, n)@[j] == s[j],
    decreases n,
{
    if n > 0 {
        let prev = array_with_prefix(s, (n - 1) as nat);
        lemma_array_with_prefix(s, (n - 1) as nat);
        assert(vstd::array::spec_array_update(prev, n - 1, s[n - 1])@ == prev@.update(n - 1, s[n - 1]));
        assert forall|j: int| 0 <= j < n implies #[trigger] array_with_prefix(s, n)@[j] == s[j] by {
            if j < n - 1 {
                assert(prev@[j] == s[j]);
            }
        }
    }
}

/// Every 16 bytes are the bytes of some array.
proof fn lemma_array_exists(s: Seq<u8>)
    requires
        s.len() == 16,
    ensures
        exists|a: [u8; 16]| a@ == s,
{
    lemma_array_with_prefix(s, 16);
    assert(array_with_prefix(s, 16)@ =~= s);
}

/// The array of a timestamp holds its 16 bytes.
proof fn lemma_array_of_timestamp(t: Timestamp)
    ensures
        array_of_timestamp(t)@ == be_bytes(t.time as nat, 16),
{
    lemma_be_bytes_len(t.time as nat, 16);
    lemma_array_exists(be_bytes(t.time as nat, 16));
}

impl From<[u8; 16]> for Timestamp {
    /// The timestamp written in the bytes, most significant first.
    fn from(bytes: [u8; 16]) -> (r: Timestamp) {
        let mut v: Vec<u8> = Vec::new();
        let mut i: usize = 0;
        while i < 16
            invariant
                i <= 16,
                v@ == bytes@.subrange(0, i as int),
            decreases 16 - i,
        {
            v.push(bytes[i]);
            proof {
                assert(v@ =~= bytes@.subrange(0, i + 1));
            }
            i = i + 1;
        }
        proof {
            assert(bytes@.subrange(0, 16) =~= bytes@);
        }
        Timestamp::from_be_bytes(&v)
    }
}

impl vstd::std_specs::convert::FromSpecImpl<[u8; 16]> for Timestamp {
    open spec fn obeys_from_spec() -> bool {
        true
    }

    open spec fn from_spec(bytes: [u8; 16]) -> Timestamp {
        timestamp_of_array(bytes)
    }
}

impl From<Timestamp> for [u8; 16] {
    /// The 16 bytes of the timestamp, most significant first.
    fn from(t: Timestamp) -> (r: [u8; 16]) {
        let v = t.to_be_bytes();
        proof {
            lemma_be_bytes_len(t.time as nat, 16);
        }
        let mut a: [u8; 16] = [0u8; 16];
        let mut i: usize = 0;
        while i < 16
            invariant
                i <= 16,
                v@ == be_bytes(t.time as nat, 16),
                v@.len() == 16,
                forall|j: int| 0 <= j < i ==> a@[j] == v@[j],
            decreases 16 - i,
        {
            a[i] = v[i];
            i = i + 1;
        }
        proof {
            lemma_array_of_timestamp(t);
            let c = array_of_timestamp(t);
            assert(a =~= c);
        }
        a
    }
}

impl vstd::std_specs::convert::FromSpecImpl<Timestamp> for [u8; 16] {
    open spec fn obeys_from_spec() -> bool {
        true
    }

    open spec fn from_spec(t: Timestamp) -> [u8; 16] {
        array_of_timestamp(t)
    }
}

/// A timestamp turned into its 16 bytes and back is itself, and 16 bytes
/// turned into a timestamp and back are themselves.
pub proof fn lemma_timestamp_array_round_trip(t: Timestamp, bytes: [u8; 16])
    ensures
        timestamp_of_array(array_of_timestamp(t)) == t,
        array_of_timestamp(timestamp_of_array(bytes)) == bytes,
{
    lemma_array_of_timestamp(t);
    lemma_timestamp_bytes_round_trip(t, bytes@);
    let u = timestamp_of_array(bytes);
    lemma_array_of_timestamp(u);
    assert(array_of_timestamp(u) =~= bytes);
}

/// Tells a mutex that a server acknowledged its request.
#[derive(PartialEq, Eq, Structural, Copy, Clone, Debug, Hash)]
pub struct AckMessage {
    /// The server that sent the acknowledgement.
    pub from: ServerId,
}

impl AckMessage {
    pub fn new(from: ServerId, _packet: AckPacket) -> (r: Self)
        ensures
            r.from == from,
    {
        AckMessage { from }
    }
}

/// Tells a mutex that a server granted its request. When every connected
/// server granted it, the mutex is acquired.
#[derive(PartialEq, Eq, Clone, Debug)]
pub struct OkMessage {
    /// The server that sent the ok.
    pub from: ServerId,
    /// The servers that count as connected: all of them must send an ok.
    pub connected_servers: Vec<ServerId>,
}

impl OkMessage {
    pub fn new(from: ServerId, connected_servers: Vec<ServerId>, _packet: OkPacket) -> (r: Self)
        ensures
            r.from == from,
            r.connected_servers@ == connected_servers@,
    {
        OkMessage { from, connected_servers }
    }
}

/// Tells a mutex that a server asks for it.
#[derive(PartialEq, Eq, Structural, Copy, Clone, Debug, Hash)]
pub struct RequestMessage {
    /// The server that wants the mutex.
    pub from: ServerId,
    /// When that server began to wait for it.
    pub timestamp: Timestamp,
}

impl RequestMessage {
    pub fn new(from: ServerId, packet: RequestPacket) -> (r: Self)
        ensures
            r.from == from,
            r.timestamp == packet.timestamp,
    {
        RequestMessage { from, timestamp: packet.timestamp }
    }
}

/// A timestamp written to bytes reads back as itself, and 16 bytes read as a
/// timestamp write back as themselves.
pub proof fn lemma_timestamp_bytes_round_trip(t: Timestamp, bytes: Seq<u8>)
    requires
        bytes.len() == 16,
    ensures
        be_bytes(t.time as nat, 16).len() == 16,
        be_value(be_bytes(t.time as nat, 16)) == t.time,
        be_bytes(be_value(bytes) as u128 as nat, 16) == bytes,
{
    lemma_pow256_values();
    lemma_be_bytes_len(t.time as nat, 16);
    lemma_be_value_of_bytes(t.time as nat, 16);
    lemma_be_value_bound(bytes);
    lemma_be_bytes_of_value(bytes);
}

} // verus!
