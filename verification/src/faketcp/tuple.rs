//! The two ends of a path.
use crate::address;
use crate::address::{IpAddress, SocketAddress};
use crate::faketcp::checksum;
use crate::faketcp::error::CarrierError;
use vstd::prelude::*;

verus! {

/// The protocol number of TCP.
pub const TCP_PROTOCOL: u8 = 6;

/// The two underlay endpoints that identify one `FakeTCP` path.
#[derive(Clone, Copy, Debug, PartialEq, Eq, Hash, Structural)]
pub struct FourTuple {
    /// Source socket address in packet direction.
    pub source: SocketAddress,
    /// Destination socket address in packet direction.
    pub destination: SocketAddress,
}

/// Direction separates the two per-path sequence spaces.
#[derive(Clone, Copy, Debug, PartialEq, Eq, Hash, Structural)]
pub enum CarrierDirection {
    /// Packets sent from the QUICP client to the server.
    ClientToServer,
    /// Packets sent from the QUICP server to the client.
    ServerToClient,
}

/// Controls whether a SYN may carry the first QUICP datagram.
#[derive(Clone, Copy, Debug, PartialEq, Eq)]
pub enum SynDataMode {
    /// Disallows a QUICP datagram in the carrier SYN.
    Disabled,
    /// The value is the TFO-style cookie expected on the SYN option.
    Cookie([u8; 16]),
}

/// Whether an address is one of all zeros.
pub open spec fn unspecified(ip: IpAddress) -> bool {
    ip == IpAddress::V4(0) || ip == IpAddress::V6(0)
}

/// Whether two addresses are of one family.
pub open spec fn same_family(left: IpAddress, right: IpAddress) -> bool {
    (left is V4) == (right is V4)
}

/// The tuple as seen from the other end.
pub open spec fn reversed(tuple: FourTuple) -> FourTuple {
    FourTuple { source: tuple.destination, destination: tuple.source }
}

/// Whether a tuple can be a path: one family, and neither an address nor a port is zero.
pub open spec fn usable(tuple: FourTuple) -> bool {
    &&& same_family(tuple.source.ip, tuple.destination.ip)
    &&& !unspecified(tuple.source.ip)
    &&& !unspecified(tuple.destination.ip)
    &&& tuple.source.port != 0
    &&& tuple.destination.port != 0
}

/// The part of the TCP checksum that the two addresses and the protocol number add.
pub open spec fn pseudo_sum(source: IpAddress, destination: IpAddress) -> int {
    checksum::word_sum(address::octets(source)) + checksum::word_sum(address::octets(destination)) + 6
}

impl FourTuple {
    /// Creates a path tuple. A carrier validates it before use.
    pub fn new(source: SocketAddress, destination: SocketAddress) -> (tuple: Self)
        ensures
            tuple == (FourTuple { source, destination }),
    {
        FourTuple { source, destination }
    }

    /// Reverses the packet direction.
    pub fn reverse(self) -> (tuple: Self)
        ensures
            tuple == reversed(self),
    {
        FourTuple { source: self.destination, destination: self.source }
    }

    /// Refuses a tuple that cannot be a path.
    pub fn validate(self) -> (result: Result<(), CarrierError>)
        ensures
            result == (if usable(self) {
                Ok::<(), CarrierError>(())
            } else {
                Err(CarrierError::InvalidTuple)
            }),
    {
        if self.source.ip.is_ipv4() != self.destination.ip.is_ipv4() || self.source.ip.is_unspecified()
            || self.destination.ip.is_unspecified() || self.source.port == 0 || self.destination.port == 0 {
            return Err(CarrierError::InvalidTuple);
        }
        Ok(())
    }
}

impl CarrierDirection {
    /// One bit that tells the directions apart.
    pub fn bit(self) -> (bit: u8)
        ensures
            bit == (match self {
                CarrierDirection::ClientToServer => 0u8,
                CarrierDirection::ServerToClient => 1u8,
            }),
    {
        match self {
            CarrierDirection::ClientToServer => 0,
            CarrierDirection::ServerToClient => 1,
        }
    }
}

pub(crate) proof fn lemma_pseudo_sum_bounds(source: IpAddress, destination: IpAddress)
    ensures
        6 <= pseudo_sum(source, destination) <= 0x10_0000,
        pseudo_sum(source, destination) == pseudo_sum(destination, source),
        address::octets(source).len() <= 16,
        address::octets(destination).len() <= 16,
{
    checksum::lemma_word_sum_bounds(address::octets(source));
    checksum::lemma_word_sum_bounds(address::octets(destination));
}

/// The part of the TCP checksum that does not depend on the segment.
pub fn tcp_pseudo_header_prefix(source: IpAddress, destination: IpAddress) -> (prefix: Option<u32>)
    ensures
        match prefix {
            Some(sum) => same_family(source, destination) && sum == pseudo_sum(source, destination) && sum
                <= 0x10_0000,
            None => !same_family(source, destination),
        },
{
    if source.is_ipv4() != destination.is_ipv4() {
        return None;
    }
    proof {
        lemma_pseudo_sum_bounds(source, destination);
        checksum::lemma_word_sum_bounds(address::octets(source));
        checksum::lemma_word_sum_bounds(address::octets(destination));
    }
    let source_octets: Vec<u8> = source.to_octets();
    let destination_octets: Vec<u8> = destination.to_octets();
    Some(
        checksum::checksum_sum(source_octets.as_slice()) + checksum::checksum_sum(destination_octets.as_slice())
            + TCP_PROTOCOL as u32,
    )
}

/// Reversing a tuple twice changes nothing, and reversing keeps it usable.
pub proof fn law_reverse_is_an_involution(tuple: FourTuple)
    ensures
        reversed(reversed(tuple)) == tuple,
        usable(reversed(tuple)) == usable(tuple),
{
}

}
