//! Numbering of servers that all run on the loopback network, one per
//! address `127.0.0.(n + 1)`, on a fixed port.
use crate::server_id::{has_ipv4_form, last_octet, IpAddress, SocketAddress};
use vstd::prelude::*;

verus! {

/// The port that every numbered server listens on.
pub const PORT: u16 = 8080;

/// A server known by its number `id`: it listens on `127.0.0.(id + 1)`.
#[derive(PartialEq, Eq, Structural, Copy, Clone, Debug, Hash)]
pub struct ServerId {
    pub id: u16,
}

impl ServerId {
    pub fn new(id: u16) -> (r: Self)
        ensures
            r.id == id,
    {
        Self { id }
    }

    /// The address of the server: `127.0.0.(id + 1)` at [`PORT`]. Only
    /// numbers below 255 have such an address.
    pub fn to_socket_addr(&self) -> (r: SocketAddress)
        requires
            self.id < 255,
        ensures
            r == (SocketAddress { ip: IpAddress::V4(127, 0, 0, (self.id + 1) as u8), port: PORT }),
    {
        SocketAddress { ip: IpAddress::V4(127, 0, 0, (self.id + 1) as u8), port: PORT }
    }

    /// The number of the server at `addr`: one less than the last octet of
    /// its IPv4 address, which must not be 0.
    pub fn from_socket_addr(addr: SocketAddress) -> (r: Self)
        requires
            has_ipv4_form(addr.ip),
            last_octet(addr.ip) >= 1,
        ensures
            r.id == last_octet(addr.ip) - 1,
    {
        let last: u8 = match addr.ip {
            IpAddress::V4(_, _, _, d) => d,
            IpAddress::V6(bits) => (bits % 256) as u8,
        };
        Self { id: (last - 1) as u16 }
    }
}

/// A numbered server's address names it back.
pub proof fn lemma_numbered_address_round_trip(s: ServerId)
    requires
        s.id < 255,
    ensures
        has_ipv4_form(IpAddress::V4(127, 0, 0, (s.id + 1) as u8)),
        last_octet(IpAddress::V4(127, 0, 0, (s.id + 1) as u8)) - 1 == s.id,
{
}

} // verus!
