//! Identification of servers by their IP address.
use vstd::prelude::*;

verus! {

/// An IP address: four octets, or the 128 bits of an IPv6 address.
#[derive(PartialEq, Eq, Structural, Copy, Clone, Debug, Hash)]
pub enum IpAddress {
    V4(u8, u8, u8, u8),
    V6(u128),
}

/// An IP address together with a port.
#[derive(PartialEq, Eq, Structural, Copy, Clone, Debug, Hash)]
pub struct SocketAddress {
    pub ip: IpAddress,
    pub port: u16,
}

/// A server, known by the IP address it listens on.
#[derive(PartialEq, Eq, Structural, Copy, Clone, Debug, Hash)]
pub struct ServerId {
    pub ip: IpAddress,
}

/// Whether the IPv6 address `bits` embeds an IPv4 address (`::ffff:a.b.c.d`).
pub open spec fn is_ipv4_mapped(bits: u128) -> bool {
    bits / 0x1_0000_0000 == 0xffff
}

/// Whether the text of `ip` ends in a dotted IPv4 octet.
pub open spec fn has_ipv4_form(ip: IpAddress) -> bool {
    match ip {
        IpAddress::V4(_, _, _, _) => true,
        IpAddress::V6(bits) => is_ipv4_mapped(bits),
    }
}

/// The last octet of the IPv4 form of `ip`.
pub open spec fn last_octet(ip: IpAddress) -> u8
    recommends
        has_ipv4_form(ip),
{
    match ip {
        IpAddress::V4(_, _, _, d) => d,
        IpAddress::V6(bits) => (bits % 256) as u8,
    }
}

impl ServerId {
    pub fn new(ip: IpAddress) -> (r: Self)
        ensures
            r.ip == ip,
    {
        Self { ip }
    }

    /// The address of this server at `port`.
    pub fn get_socket_addr(&self, port: u16) -> (r: SocketAddress)
        ensures
            r == (SocketAddress { ip: self.ip, port }),
    {
        SocketAddress { ip: self.ip, port }
    }

    /// The number of the server: the last octet of its IPv4 address.
    pub fn to_number(&self) -> (r: u16)
        requires
            has_ipv4_form(self.ip),
        ensures
            r == last_octet(self.ip),
    {
        match self.ip {
            IpAddress::V4(_, _, _, d) => d as u16,
            IpAddress::V6(bits) => (bits % 256) as u16,
        }
    }

    /// The server that listens on the IP address of `addr`.
    pub fn from_socket_addr(addr: SocketAddress) -> (r: Self)
        ensures
            r.ip == addr.ip,
    {
        Self::new(addr.ip)
    }
}

impl From<SocketAddress> for ServerId {
    fn from(addr: SocketAddress) -> (r: Self) {
        ServerId::from_socket_addr(addr)
    }
}

impl vstd::std_specs::convert::FromSpecImpl<SocketAddress> for ServerId {
    open spec fn obeys_from_spec() -> bool {
        true
    }

    open spec fn from_spec(v: SocketAddress) -> ServerId {
        ServerId { ip: v.ip }
    }
}

} // verus!
