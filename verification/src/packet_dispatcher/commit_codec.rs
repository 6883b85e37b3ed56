//! The wire form of the packets of the two-phase commit. Each value is a tag
//! byte that names its kind followed by its fields in order; numbers are
//! written most significant byte first.
//!
//! - an IP address: `4` and its four octets, or `6` and its 16 bytes;
//! - a transaction id: `0`, the server's address, the client's address,
//!   its port (2 bytes) and the number (4 bytes); or `1`, the server's
//!   address and the number (4 bytes); or `2` and the order (8 bytes);
//! - a transaction: `0` for a discount or `1` for an increase, then the
//!   user (4 bytes) and the amount (4 bytes);
//! - a packet: `0` (prepare) with a transaction id and a transaction, or
//!   `1` (commit), `2` (rollback), `3` (yes vote), `4` (no vote) with a
//!   transaction id.
use crate::bytes::{
    be_bytes, be_value, decode_be, encode_be, lemma_be_bytes_len, lemma_be_bytes_of_value,
    lemma_be_value_bound, lemma_be_value_of_bytes, lemma_pow256_values, pow256,
};
use crate::packet_dispatcher::commit::{Transaction, TwoPhaseCommitPacket};
use crate::packet_dispatcher::messages::TransactionId;
use crate::server_id::{IpAddress, ServerId, SocketAddress};
use vstd::prelude::*;

verus! {

/// Whether the bytes `b` stand in `s` at position `pos`.
pub open spec fn bytes_at(s: Seq<u8>, pos: int, b: Seq<u8>) -> bool {
    0 <= pos && pos + b.len() <= s.len() && s.subrange(pos, pos + b.len()) == b
}

/// The number in the `n` bytes of `s` at `pos`, and the position after them.
pub open spec fn uint_at(s: Seq<u8>, pos: int, n: nat) -> Option<(nat, int)> {
    if 0 <= pos && pos + n <= s.len() {
        Some((be_value(s.subrange(pos, pos + n)), pos + n))
    } else {
        None
    }
}

/// The bytes of an IP address.
pub open spec fn ip_bytes(ip: IpAddress) -> Seq<u8> {
    match ip {
        IpAddress::V4(a, b, c, d) => seq![4u8, a, b, c, d],
        IpAddress::V6(v) => seq![6u8] + be_bytes(v as nat, 16),
    }
}

/// The IP address at `pos` in `s`, and the position after it.
pub open spec fn parse_ip(s: Seq<u8>, pos: int) -> Option<(IpAddress, int)> {
    if !(0 <= pos < s.len()) {
        None
    } else if s[pos] == 4 {
        if pos + 5 <= s.len() {
            Some((IpAddress::V4(s[pos + 1], s[pos + 2], s[pos + 3], s[pos + 4]), pos + 5))
        } else {
            None
        }
    } else if s[pos] == 6 {
        match uint_at(s, pos + 1, 16) {
            Some((v, q)) => Some((IpAddress::V6(v as u128), q)),
            None => None,
        }
    } else {
        None
    }
}

/// The bytes of a transaction id.
pub open spec fn transaction_id_bytes(t: TransactionId) -> Seq<u8> {
    match t {
        TransactionId::Discount(server, client, n) => seq![0u8] + ip_bytes(server.ip) + ip_bytes(client.ip)
            + be_bytes(client.port as nat, 2) + be_bytes(n as nat, 4),
        TransactionId::Add(server, n) => seq![1u8] + ip_bytes(server.ip) + be_bytes(n as nat, 4),
        TransactionId::Order(v) => seq![2u8] + be_bytes(v as nat, 8),
    }
}

/// The transaction id at `pos` in `s`, and the position after it.
pub open spec fn parse_transaction_id(s: Seq<u8>, pos: int) -> Option<(TransactionId, int)> {
    if !(0 <= pos < s.len()) {
        None
    } else if s[pos] == 0 {
        match parse_ip(s, pos + 1) {
            None => None,
            Some((server, p1)) => match parse_ip(s, p1) {
                None => None,
                Some((client, p2)) => match uint_at(s, p2, 2) {
                    None => None,
                    Some((port, p3)) => match uint_at(s, p3, 4) {
                        None => None,
                        Some((n, p4)) => Some((
                            TransactionId::Discount(ServerId { ip: server }, SocketAddress { ip: client, port: port as u16 }, n as u32),
                            p4,
                        )),
                    },
                },
            },
        }
    } else if s[pos] == 1 {
        match parse_ip(s, pos + 1) {
            None => None,
            Some((server, p1)) => match uint_at(s, p1, 4) {
                None => None,
                Some((n, p2)) => Some((TransactionId::Add(ServerId { ip: server }, n as u32), p2)),
            },
        }
    } else if s[pos] == 2 {
        match uint_at(s, pos + 1, 8) {
            None => None,
            Some((v, p1)) => Some((TransactionId::Order(v as u64), p1)),
        }
    } else {
        None
    }
}

/// The bytes of a transaction.
pub open spec fn transaction_bytes(t: Transaction) -> Seq<u8> {
    match t {
        Transaction::Discount { id, amount } => seq![0u8] + be_bytes(id as nat, 4) + be_bytes(amount as nat, 4),
        Transaction::Increase { id, amount } => seq![1u8] + be_bytes(id as nat, 4) + be_bytes(amount as nat, 4),
    }
}

/// The transaction at `pos` in `s`, and the position after it.
pub open spec fn parse_transaction(s: Seq<u8>, pos: int) -> Option<(Transaction, int)> {
    if !(0 <= pos < s.len()) || (s[pos] != 0 && s[pos] != 1) {
        None
    } else {
        match uint_at(s, pos + 1, 4) {
            None => None,
            Some((id, p1)) => match uint_at(s, p1, 4) {
                None => None,
                Some((amount, p2)) => Some((
                    if s[pos] == 0 {
                        Transaction::Discount { id: id as u32, amount: amount as u32 }
                    } else {
                        Transaction::Increase { id: id as u32, amount: amount as u32 }
                    },
                    p2,
                )),
            },
        }
    }
}

/// The tag byte of each kind of commit packet.
pub open spec fn commit_packet_tag(p: TwoPhaseCommitPacket) -> u8 {
    match p {
        TwoPhaseCommitPacket::Prepare { .. } => 0,
        TwoPhaseCommitPacket::Commit { .. } => 1,
        TwoPhaseCommitPacket::Rollback { .. } => 2,
        TwoPhaseCommitPacket::VoteYes { .. } => 3,
        TwoPhaseCommitPacket::VoteNo { .. } => 4,
    }
}

/// The bytes of a commit packet.
pub open spec fn commit_packet_bytes(p: TwoPhaseCommitPacket) -> Seq<u8> {
    match p {
        TwoPhaseCommitPacket::Prepare { id, transaction } => seq![0u8] + transaction_id_bytes(id) + transaction_bytes(transaction),
        TwoPhaseCommitPacket::Commit { id } => seq![1u8] + transaction_id_bytes(id),
        TwoPhaseCommitPacket::Rollback { id } => seq![2u8] + transaction_id_bytes(id),
        TwoPhaseCommitPacket::VoteYes { id } => seq![3u8] + transaction_id_bytes(id),
        TwoPhaseCommitPacket::VoteNo { id } => seq![4u8] + transaction_id_bytes(id),
    }
}

/// The commit packet at `pos` in `s`, and the position after it.
pub open spec fn parse_commit_packet_at(s: Seq<u8>, pos: int) -> Option<(TwoPhaseCommitPacket, int)> {
    if !(0 <= pos < s.len()) || s[pos] > 4 {
        None
    } else {
        match parse_transaction_id(s, pos + 1) {
            None => None,
            Some((id, p1)) => if s[pos] == 0 {
                match parse_transaction(s, p1) {
                    None => None,
                    Some((transaction, p2)) => Some((TwoPhaseCommitPacket::Prepare { id, transaction }, p2)),
                }
            } else if s[pos] == 1 {
                Some((TwoPhaseCommitPacket::Commit { id }, p1))
            } else if s[pos] == 2 {
                Some((TwoPhaseCommitPacket::Rollback { id }, p1))
            } else if s[pos] == 3 {
                Some((TwoPhaseCommitPacket::VoteYes { id }, p1))
            } else {
                Some((TwoPhaseCommitPacket::VoteNo { id }, p1))
            },
        }
    }
}

/// The commit packet that `s` holds, exactly and with nothing after it.
pub open spec fn parse_commit_packet(s: Seq<u8>) -> Option<TwoPhaseCommitPacket> {
    match parse_commit_packet_at(s, 0) {
        Some((p, end)) => if end == s.len() {
            Some(p)
        } else {
            None
        },
        None => None,
    }
}

// ---------------------------------------------------------------------------
// Reading back what was written.

proof fn lemma_bytes_at_split(s: Seq<u8>, pos: int, a: Seq<u8>, b: Seq<u8>)
    requires
        bytes_at(s, pos, a + b),
    ensures
        bytes_at(s, pos, a),
        bytes_at(s, pos + a.len(), b),
{
    assert(s.subrange(pos, pos + a.len()) =~= (a + b).subrange(0, a.len() as int));
    assert(s.subrange(pos + a.len(), pos + a.len() + b.len()) =~= (a + b).subrange(a.len() as int, (a + b).len() as int));
    assert((a + b).subrange(0, a.len() as int) =~= a);
    assert((a + b).subrange(a.len() as int, (a + b).len() as int) =~= b);
}

proof fn lemma_bytes_at_byte(s: Seq<u8>, pos: int, b: Seq<u8>, i: int)
    requires
        bytes_at(s, pos, b),
        0 <= i < b.len(),
    ensures
        s[pos + i] == b[i],
{
    assert(s.subrange(pos, pos + b.len())[i] == s[pos + i]);
}

proof fn lemma_uint_at_written(s: Seq<u8>, pos: int, x: nat, n: nat)
    requires
        x < pow256(n),
        bytes_at(s, pos, be_bytes(x, n)),
    ensures
        uint_at(s, pos, n) == Some((x, pos + n)),
{
    lemma_be_bytes_len(x, n);
    lemma_be_value_of_bytes(x, n);
}

proof fn lemma_uint_at_read(s: Seq<u8>, pos: int, n: nat)
    requires
        uint_at(s, pos, n) is Some,
    ensures
        bytes_at(s, pos, be_bytes(uint_at(s, pos, n).unwrap().0, n)),
        uint_at(s, pos, n).unwrap().1 == pos + n,
        uint_at(s, pos, n).unwrap().0 < pow256(n),
{
    lemma_be_bytes_of_value(s.subrange(pos, pos + n));
    lemma_be_value_bound(s.subrange(pos, pos + n));
}

proof fn lemma_parse_ip_written(s: Seq<u8>, pos: int, ip: IpAddress)
    requires
        bytes_at(s, pos, ip_bytes(ip)),
    ensures
        parse_ip(s, pos) == Some((ip, pos + ip_bytes(ip).len())),
{
    let b = ip_bytes(ip);
    lemma_bytes_at_byte(s, pos, b, 0);
    match ip {
        IpAddress::V4(a, b1, c, d) => {
            lemma_bytes_at_byte(s, pos, b, 1);
            lemma_bytes_at_byte(s, pos, b, 2);
            lemma_bytes_at_byte(s, pos, b, 3);
            lemma_bytes_at_byte(s, pos, b, 4);
        },
        IpAddress::V6(v) => {
            lemma_pow256_values();
            lemma_be_bytes_len(v as nat, 16);
            lemma_bytes_at_split(s, pos, seq![6u8], be_bytes(v as nat, 16));
            lemma_uint_at_written(s, pos + 1, v as nat, 16);
        },
    }
}

proof fn lemma_parse_ip_read(s: Seq<u8>, pos: int)
    requires
        parse_ip(s, pos) is Some,
    ensures
        bytes_at(s, pos, ip_bytes(parse_ip(s, pos).unwrap().0)),
        parse_ip(s, pos).unwrap().1 == pos + ip_bytes(parse_ip(s, pos).unwrap().0).len(),
{
    let (ip, q) = parse_ip(s, pos).unwrap();
    if s[pos] == 4 {
        assert(s.subrange(pos, pos + 5) =~= ip_bytes(ip));
    } else {
        lemma_uint_at_read(s, pos + 1, 16);
        lemma_pow256_values();
        let v = uint_at(s, pos + 1, 16).unwrap().0;
        lemma_be_bytes_len(v, 16);
        assert(s.subrange(pos, pos + 17) =~= seq![6u8] + s.subrange(pos + 1, pos + 17));
    }
}

proof fn lemma_parse_transaction_id_written(s: Seq<u8>, pos: int, t: TransactionId)
    requires
        bytes_at(s, pos, transaction_id_bytes(t)),
    ensures
        parse_transaction_id(s, pos) == Some((t, pos + transaction_id_bytes(t).len())),
{
    lemma_pow256_values();
    lemma_bytes_at_byte(s, pos, transaction_id_bytes(t), 0);
    match t {
        TransactionId::Discount(server, client, n) => {
            let a = ip_bytes(server.ip);
            let b = ip_bytes(client.ip);
            let c = be_bytes(client.port as nat, 2);
            let d = be_bytes(n as nat, 4);
            lemma_be_bytes_len(client.port as nat, 2);
            lemma_be_bytes_len(n as nat, 4);
            assert(transaction_id_bytes(t) == seq![0u8] + a + b + c + d);
            lemma_bytes_at_split(s, pos, seq![0u8] + a + b + c, d);
            lemma_bytes_at_split(s, pos, seq![0u8] + a + b, c);
            lemma_bytes_at_split(s, pos, seq![0u8] + a, b);
            lemma_bytes_at_split(s, pos, seq![0u8], a);
            lemma_parse_ip_written(s, pos + 1, server.ip);
            lemma_parse_ip_written(s, pos + 1 + a.len(), client.ip);
            lemma_uint_at_written(s, pos + 1 + a.len() + b.len(), client.port as nat, 2);
            lemma_uint_at_written(s, pos + 1 + a.len() + b.len() + 2, n as nat, 4);
        },
        TransactionId::Add(server, n) => {
            let a = ip_bytes(server.ip);
            let d = be_bytes(n as nat, 4);
            lemma_be_bytes_len(n as nat, 4);
            assert(transaction_id_bytes(t) == seq![1u8] + a + d);
            lemma_bytes_at_split(s, pos, seq![1u8] + a, d);
            lemma_bytes_at_split(s, pos, seq![1u8], a);
            lemma_parse_ip_written(s, pos + 1, server.ip);
            lemma_uint_at_written(s, pos + 1 + a.len(), n as nat, 4);
        },
        TransactionId::Order(v) => {
            lemma_be_bytes_len(v as nat, 8);
            lemma_bytes_at_split(s, pos, seq![2u8], be_bytes(v as nat, 8));
            lemma_uint_at_written(s, pos + 1, v as nat, 8);
        },
    }
}

proof fn lemma_parse_transaction_id_read(s: Seq<u8>, pos: int)
    requires
        parse_transaction_id(s, pos) is Some,
    ensures
        bytes_at(s, pos, transaction_id_bytes(parse_transaction_id(s, pos).unwrap().0)),
        parse_transaction_id(s, pos).unwrap().1 == pos + transaction_id_bytes(parse_transaction_id(s, pos).unwrap().0).len(),
{
    lemma_pow256_values();
    let (t, q) = parse_transaction_id(s, pos).unwrap();
    if s[pos] == 0 {
        lemma_parse_ip_read(s, pos + 1);
        let (server, p1) = parse_ip(s, pos + 1).unwrap();
        lemma_parse_ip_read(s, p1);
        let (client, p2) = parse_ip(s, p1).unwrap();
        lemma_uint_at_read(s, p2, 2);
        let port = uint_at(s, p2, 2).unwrap().0;
        lemma_uint_at_read(s, p2 + 2, 4);
        let n = uint_at(s, p2 + 2, 4).unwrap().0;
        lemma_be_bytes_len(port, 2);
        lemma_be_bytes_len(n, 4);
        assert(s.subrange(pos, q) =~= seq![0u8] + s.subrange(pos + 1, p1) + s.subrange(p1, p2) + s.subrange(p2, p2 + 2)
            + s.subrange(p2 + 2, q));
        assert(s.subrange(pos, pos + transaction_id_bytes(t).len()) =~= transaction_id_bytes(t));
    } else if s[pos] == 1 {
        lemma_parse_ip_read(s, pos + 1);
        let (server, p1) = parse_ip(s, pos + 1).unwrap();
        lemma_uint_at_read(s, p1, 4);
        let n = uint_at(s, p1, 4).unwrap().0;
        lemma_be_bytes_len(n, 4);
        assert(s.subrange(pos, q) =~= seq![1u8] + s.subrange(pos + 1, p1) + s.subrange(p1, q));
        assert(s.subrange(pos, pos + transaction_id_bytes(t).len()) =~= transaction_id_bytes(t));
    } else {
        lemma_uint_at_read(s, pos + 1, 8);
        let v = uint_at(s, pos + 1, 8).unwrap().0;
        lemma_be_bytes_len(v, 8);
        assert(s.subrange(pos, q) =~= seq![2u8] + s.subrange(pos + 1, q));
        assert(s.subrange(pos, pos + transaction_id_bytes(t).len()) =~= transaction_id_bytes(t));
    }
}

proof fn lemma_parse_transaction_written(s: Seq<u8>, pos: int, t: Transaction)
    requires
        bytes_at(s, pos, transaction_bytes(t)),
    ensures
        parse_transaction(s, pos) == Some((t, pos + transaction_bytes(t).len())),
{
    lemma_pow256_values();
    lemma_bytes_at_byte(s, pos, transaction_bytes(t), 0);
    let (tag, id, amount) = match t {
        Transaction::Discount { id, amount } => (0u8, id, amount),
        Transaction::Increase { id, amount } => (1u8, id, amount),
    };
    let a = be_bytes(id as nat, 4);
    let b = be_bytes(amount as nat, 4);
    lemma_be_bytes_len(id as nat, 4);
    lemma_be_bytes_len(amount as nat, 4);
    assert(transaction_bytes(t) == seq![tag] + a + b);
    lemma_bytes_at_split(s, pos, seq![tag] + a, b);
    lemma_bytes_at_split(s, pos, seq![tag], a);
    lemma_uint_at_written(s, pos + 1, id as nat, 4);
    lemma_uint_at_written(s, pos + 5, amount as nat, 4);
}

proof fn lemma_parse_transaction_read(s: Seq<u8>, pos: int)
    requires
        parse_transaction(s, pos) is Some,
    ensures
        bytes_at(s, pos, transaction_bytes(parse_transaction(s, pos).unwrap().0)),
        parse_transaction(s, pos).unwrap().1 == pos + transaction_bytes(parse_transaction(s, pos).unwrap().0).len(),
{
    lemma_pow256_values();
    let (t, q) = parse_transaction(s, pos).unwrap();
    lemma_uint_at_read(s, pos + 1, 4);
    lemma_uint_at_read(s, pos + 5, 4);
    let id = uint_at(s, pos + 1, 4).unwrap().0;
    let amount = uint_at(s, pos + 5, 4).unwrap().0;
    lemma_be_bytes_len(id, 4);
    lemma_be_bytes_len(amount, 4);
    assert(s.subrange(pos, q) =~= seq![s[pos]] + s.subrange(pos + 1, pos + 5) + s.subrange(pos + 5, q));
    assert(s.subrange(pos, pos + transaction_bytes(t).len()) =~= transaction_bytes(t));
}

/// A commit packet written out is read back as itself.
pub proof fn lemma_commit_packet_decode_encode(p: TwoPhaseCommitPacket)
    ensures
        parse_commit_packet(commit_packet_bytes(p)) == Some(p),
{
    let s = commit_packet_bytes(p);
    assert(s.subrange(0, s.len() as int) =~= s);
    lemma_bytes_at_byte(s, 0, s, 0);
    match p {
        TwoPhaseCommitPacket::Prepare { id, transaction } => {
            let a = transaction_id_bytes(id);
            let b = transaction_bytes(transaction);
            assert(s == seq![0u8] + a + b);
            lemma_bytes_at_split(s, 0, seq![0u8] + a, b);
            lemma_bytes_at_split(s, 0, seq![0u8], a);
            lemma_parse_transaction_id_written(s, 1, id);
            lemma_parse_transaction_written(s, 1 + a.len() as int, transaction);
        },
        TwoPhaseCommitPacket::Commit { id } => {
            lemma_bytes_at_split(s, 0, seq![1u8], transaction_id_bytes(id));
            lemma_parse_transaction_id_written(s, 1, id);
        },
        TwoPhaseCommitPacket::Rollback { id } => {
            lemma_bytes_at_split(s, 0, seq![2u8], transaction_id_bytes(id));
            lemma_parse_transaction_id_written(s, 1, id);
        },
        TwoPhaseCommitPacket::VoteYes { id } => {
            lemma_bytes_at_split(s, 0, seq![3u8], transaction_id_bytes(id));
            lemma_parse_transaction_id_written(s, 1, id);
        },
        TwoPhaseCommitPacket::VoteNo { id } => {
            lemma_bytes_at_split(s, 0, seq![4u8], transaction_id_bytes(id));
            lemma_parse_transaction_id_written(s, 1, id);
        },
    }
}

/// Bytes read as a commit packet are exactly that packet's bytes.
pub proof fn lemma_commit_packet_encode_decode(s: Seq<u8>)
    requires
        parse_commit_packet(s) is Some,
    ensures
        commit_packet_bytes(parse_commit_packet(s).unwrap()) == s,
{
    let p = parse_commit_packet(s).unwrap();
    lemma_parse_transaction_id_read(s, 1);
    let (id, p1) = parse_transaction_id(s, 1).unwrap();
    if s[0] == 0 {
        lemma_parse_transaction_read(s, p1);
        assert(s =~= seq![0u8] + s.subrange(1, p1) + s.subrange(p1, s.len() as int));
    } else {
        assert(s =~= seq![s[0]] + s.subrange(1, p1));
    }
    assert(commit_packet_bytes(p) =~= s);
}

// ---------------------------------------------------------------------------
// Writing and reading.

fn write_uint(out: &mut Vec<u8>, x: u128, n: usize)
    requires
        n <= 16,
    ensures
        final(out)@ == old(out)@ + be_bytes(x as nat, n as nat),
{
    let mut b = encode_be(x, n);
    out.append(&mut b);
}

fn write_ip(out: &mut Vec<u8>, ip: IpAddress)
    ensures
        final(out)@ == old(out)@ + ip_bytes(ip),
{
    match ip {
        IpAddress::V4(a, b, c, d) => {
            out.push(4u8);
            out.push(a);
            out.push(b);
            out.push(c);
            out.push(d);
            proof {
                assert(out@ =~= old(out)@ + ip_bytes(ip));
            }
        },
        IpAddress::V6(v) => {
            out.push(6u8);
            write_uint(out, v, 16);
            proof {
                assert(out@ =~= old(out)@ + ip_bytes(ip));
            }
        },
    }
}

fn write_transaction_id(out: &mut Vec<u8>, t: TransactionId)
    ensures
        final(out)@ == old(out)@ + transaction_id_bytes(t),
{
    match t {
        TransactionId::Discount(server, client, n) => {
            out.push(0u8);
            write_ip(out, server.ip);
            write_ip(out, client.ip);
            write_uint(out, client.port as u128, 2);
            write_uint(out, n as u128, 4);
        },
        TransactionId::Add(server, n) => {
            out.push(1u8);
            write_ip(out, server.ip);
            write_uint(out, n as u128, 4);
        },
        TransactionId::Order(v) => {
            out.push(2u8);
            write_uint(out, v as u128, 8);
        },
    }
    proof {
        assert(out@ =~= old(out)@ + transaction_id_bytes(t));
    }
}

fn write_transaction(out: &mut Vec<u8>, t: Transaction)
    ensures
        final(out)@ == old(out)@ + transaction_bytes(t),
{
    let (tag, id, amount) = match t {
        Transaction::Discount { id, amount } => (0u8, id, amount),
        Transaction::Increase { id, amount } => (1u8, id, amount),
    };
    out.push(tag);
    write_uint(out, id as u128, 4);
    write_uint(out, amount as u128, 4);
    proof {
        assert(out@ =~= old(out)@ + transaction_bytes(t));
    }
}

fn read_uint(b: &Vec<u8>, pos: usize, n: usize) -> (r: Option<(u128, usize)>)
    requires
        n <= 16,
    ensures
        r is None <==> uint_at(b@, pos as int, n as nat) is None,
        r matches Some((v, q)) ==> uint_at(b@, pos as int, n as nat) == Some((v as nat, q as int)),
{
    if pos > b.len() || n > b.len() - pos {
        return None;
    }
    let v = decode_be(b, pos, pos + n);
    Some((v, pos + n))
}

fn read_ip(b: &Vec<u8>, pos: usize) -> (r: Option<(IpAddress, usize)>)
    ensures
        r is None <==> parse_ip(b@, pos as int) is None,
        r matches Some((ip, q)) ==> parse_ip(b@, pos as int) == Some((ip, q as int)),
{
    if pos >= b.len() {
        return None;
    }
    let tag = b[pos];
    if tag == 4 {
        if b.len() - pos < 5 {
            return None;
        }
        Some((IpAddress::V4(b[pos + 1], b[pos + 2], b[pos + 3], b[pos + 4]), pos + 5))
    } else if tag == 6 {
        match read_uint(b, pos + 1, 16) {
            None => None,
            Some((v, q)) => Some((IpAddress::V6(v), q)),
        }
    } else {
        None
    }
}

fn read_transaction_id(b: &Vec<u8>, pos: usize) -> (r: Option<(TransactionId, usize)>)
    ensures
        r is None <==> parse_transaction_id(b@, pos as int) is None,
        r matches Some((t, q)) ==> parse_transaction_id(b@, pos as int) == Some((t, q as int)),
{
    if pos >= b.len() {
        return None;
    }
    let tag = b[pos];
    if tag == 0 {
        let (server, p1) = match read_ip(b, pos + 1) {
            None => return None,
            Some(x) => x,
        };
        let (client, p2) = match read_ip(b, p1) {
            None => return None,
            Some(x) => x,
        };
        let (port, p3) = match read_uint(b, p2, 2) {
            None => return None,
            Some(x) => x,
        };
        let (n, p4) = match read_uint(b, p3, 4) {
            None => return None,
            Some(x) => x,
        };
        proof {
            lemma_uint_at_read(b@, p2 as int, 2);
            lemma_uint_at_read(b@, p3 as int, 4);
            lemma_pow256_values();
        }
        Some((
            TransactionId::Discount(ServerId { ip: server }, SocketAddress { ip: client, port: port as u16 }, n as u32),
            p4,
        ))
    } else if tag == 1 {
        let (server, p1) = match read_ip(b, pos + 1) {
            None => return None,
            Some(x) => x,
        };
        let (n, p2) = match read_uint(b, p1, 4) {
            None => return None,
            Some(x) => x,
        };
        proof {
            lemma_uint_at_read(b@, p1 as int, 4);
            lemma_pow256_values();
        }
        Some((TransactionId::Add(ServerId { ip: server }, n as u32), p2))
    } else if tag == 2 {
        let (v, p1) = match read_uint(b, pos + 1, 8) {
            None => return None,
            Some(x) => x,
        };
        proof {
            lemma_uint_at_read(b@, pos + 1, 8);
            lemma_pow256_values();
        }
        Some((TransactionId::Order(v as u64), p1))
    } else {
        None
    }
}

fn read_transaction(b: &Vec<u8>, pos: usize) -> (r: Option<(Transaction, usize)>)
    ensures
        r is None <==> parse_transaction(b@, pos as int) is None,
        r matches Some((t, q)) ==> parse_transaction(b@, pos as int) == Some((t, q as int)),
{
    if pos >= b.len() {
        return None;
    }
    let tag = b[pos];
    if tag != 0 && tag != 1 {
        return None;
    }
    let (id, p1) = match read_uint(b, pos + 1, 4) {
        None => return None,
        Some(x) => x,
    };
    let (amount, p2) = match read_uint(b, p1, 4) {
        None => return None,
        Some(x) => x,
    };
    proof {
        lemma_uint_at_read(b@, pos + 1, 4);
        lemma_uint_at_read(b@, p1 as int, 4);
        lemma_pow256_values();
    }
    let t = if tag == 0 {
        Transaction::Discount { id: id as u32, amount: amount as u32 }
    } else {
        Transaction::Increase { id: id as u32, amount: amount as u32 }
    };
    Some((t, p2))
}

impl TwoPhaseCommitPacket {
    /// The bytes of the packet.
    pub fn to_bytes(&self) -> (r: Vec<u8>)
        ensures
            r@ == commit_packet_bytes(*self),
    {
        let mut out: Vec<u8> = Vec::new();
        match *self {
            TwoPhaseCommitPacket::Prepare { id, transaction } => {
                out.push(0u8);
                write_transaction_id(&mut out, id);
                write_transaction(&mut out, transaction);
            },
            TwoPhaseCommitPacket::Commit { id } => {
                out.push(1u8);
                write_transaction_id(&mut out, id);
            },
            TwoPhaseCommitPacket::Rollback { id } => {
                out.push(2u8);
                write_transaction_id(&mut out, id);
            },
            TwoPhaseCommitPacket::VoteYes { id } => {
                out.push(3u8);
                write_transaction_id(&mut out, id);
            },
            TwoPhaseCommitPacket::VoteNo { id } => {
                out.push(4u8);
                write_transaction_id(&mut out, id);
            },
        }
        proof {
            assert(out@ =~= commit_packet_bytes(*self));
        }
        out
    }

    /// The packet that `bytes` hold, exactly; `None` when they hold none or
    /// something follows it.
    pub fn from_bytes(bytes: &Vec<u8>) -> (r: Option<TwoPhaseCommitPacket>)
        ensures
            r == parse_commit_packet(bytes@),
    {
        if bytes.len() == 0 {
            return None;
        }
        let tag = bytes[0];
        if tag > 4 {
            return None;
        }
        let (id, p1) = match read_transaction_id(bytes, 1) {
            None => return None,
            Some(x) => x,
        };
        let (p, end) = if tag == 0 {
            match read_transaction(bytes, p1) {
                None => return None,
                Some((transaction, p2)) => (TwoPhaseCommitPacket::Prepare { id, transaction }, p2),
            }
        } else if tag == 1 {
            (TwoPhaseCommitPacket::Commit { id }, p1)
        } else if tag == 2 {
            (TwoPhaseCommitPacket::Rollback { id }, p1)
        } else if tag == 3 {
            (TwoPhaseCommitPacket::VoteYes { id }, p1)
        } else {
            (TwoPhaseCommitPacket::VoteNo { id }, p1)
        };
        if end == bytes.len() {
            Some(p)
        } else {
            None
        }
    }
}

} // verus!
