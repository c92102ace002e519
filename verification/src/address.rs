//! Socket addresses as plain values.
use crate::endian;
use vstd::prelude::*;

verus! {

/// An IP address by its octets, read as one number with the first octet on top.
#[derive(Clone, Copy, Debug, PartialEq, Eq, Hash, Structural)]
pub enum IpAddress {
    V4(u32),
    V6(u128),
}

/// A socket address. Flow information and scope are zero for IPv4.
#[derive(Clone, Copy, Debug, PartialEq, Eq, Hash, Structural)]
pub struct SocketAddress {
    pub ip: IpAddress,
    pub port: u16,
    pub flow_info: u32,
    pub scope_id: u32,
}

/// The octets of an address in network order.
pub open spec fn octets(ip: IpAddress) -> Seq<u8> {
    match ip {
        IpAddress::V4(value) => endian::be32(value),
        IpAddress::V6(value) => endian::be128(value),
    }
}

/// Whether one address and port come before another, or are the same: IPv4 comes before
/// IPv6, then the octets decide, then the port.
pub open spec fn precedes(left: SocketAddress, right: SocketAddress) -> bool {
    match (left.ip, right.ip) {
        (IpAddress::V4(_), IpAddress::V6(_)) => true,
        (IpAddress::V6(_), IpAddress::V4(_)) => false,
        (IpAddress::V4(a), IpAddress::V4(b)) => a < b || a == b && left.port <= right.port,
        (IpAddress::V6(a), IpAddress::V6(b)) => a < b || a == b && left.port <= right.port,
    }
}

impl IpAddress {
    /// Whether this is an IPv4 address.
    pub fn is_ipv4(&self) -> (v4: bool)
        ensures
            v4 == (self is V4),
    {
        match self {
            IpAddress::V4(_) => true,
            IpAddress::V6(_) => false,
        }
    }

    /// Whether every octet is zero.
    pub fn is_unspecified(&self) -> (zero: bool)
        ensures
            zero == (*self == IpAddress::V4(0) || *self == IpAddress::V6(0)),
    {
        match self {
            IpAddress::V4(value) => *value == 0,
            IpAddress::V6(value) => *value == 0,
        }
    }

    /// Whether this is an address of a group.
    pub open spec fn group(self) -> bool {
        match self {
            IpAddress::V4(value) => value / 0x1000_0000 == 14,
            IpAddress::V6(value) => value / 0x100_0000_0000_0000_0000_0000_0000_0000 == 255,
        }
    }

    /// Whether this is an address of a group.
    pub fn is_multicast(&self) -> (multicast: bool)
        ensures
            multicast == self.group(),
    {
        match self {
            IpAddress::V4(value) => *value / 0x1000_0000 == 14,
            IpAddress::V6(value) => *value / 0x100_0000_0000_0000_0000_0000_0000_0000 == 255,
        }
    }

    /// The octets in network order.
    pub fn to_octets(&self) -> (bytes: Vec<u8>)
        ensures
            bytes@ == octets(*self),
    {
        match self {
            IpAddress::V4(value) => vstd::slice::slice_to_vec(endian::to_be32(*value).as_slice()),
            IpAddress::V6(value) => vstd::slice::slice_to_vec(endian::to_be128(*value).as_slice()),
        }
    }
}

impl SocketAddress {
    /// An address with a port, without flow information or scope.
    pub fn new(ip: IpAddress, port: u16) -> (address: Self)
        ensures
            address == (SocketAddress { ip, port, flow_info: 0, scope_id: 0 }),
    {
        SocketAddress { ip, port, flow_info: 0, scope_id: 0 }
    }

    /// Whether this address and port come before `other`, or are the same.
    pub fn precedes(&self, other: &SocketAddress) -> (before: bool)
        ensures
            before == precedes(*self, *other),
    {
        match (self.ip, other.ip) {
            (IpAddress::V4(_), IpAddress::V6(_)) => true,
            (IpAddress::V6(_), IpAddress::V4(_)) => false,
            (IpAddress::V4(a), IpAddress::V4(b)) => a < b || (a == b && self.port <= other.port),
            (IpAddress::V6(a), IpAddress::V6(b)) => a < b || (a == b && self.port <= other.port),
        }
    }
}

}
