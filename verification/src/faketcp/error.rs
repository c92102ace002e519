//! What can go wrong with a carrier packet.
use vstd::prelude::*;

verus! {

/// Packet validation, bounded encoding, and carrier-state errors.
#[derive(Clone, Copy, Debug, PartialEq, Eq, Structural)]
pub enum CarrierError {
    /// Source and destination do not form a usable same-family path.
    InvalidTuple,
    /// The packet has an unsupported IP version.
    UnsupportedIpVersion,
    /// The input ends before the declared headers or payload.
    PacketTooShort,
    /// The packet exceeds the IP length limit.
    PacketTooLarge,
    /// The complete outer MTU is too small for the IP and TCP headers.
    InvalidOuterMtu(u16),
    /// The advertised MSS cannot fit the configured outer packet MTU.
    InvalidMss {
        /// Rejected MSS.
        mss: u16,
        /// Maximum MSS for the outer packet MTU.
        maximum: u16,
    },
    /// The caller-owned output buffer cannot hold the encoded packet.
    OutputTooSmall {
        /// Required packet bytes.
        required: usize,
        /// Supplied output capacity.
        available: usize,
    },
    /// The IP header or checksum is invalid.
    InvalidIpHeader,
    /// The TCP-shaped header or checksum is invalid.
    InvalidTcpHeader,
    /// A TCP option is malformed.
    InvalidTcpOption,
    /// Encoded TCP options exceed the protocol maximum.
    TcpOptionsTooLong,
    /// A QUICP datagram cannot fit in one carrier packet.
    DatagramTooLarge,
    /// SYN data was requested while disabled.
    SynDataDisabled,
    /// The SYN did not carry the expected tuple-bound cookie.
    SynCookieRejected,
    /// The requested SYN/data transition is not valid for current state.
    InvalidState,
    /// The decoded packet belongs to a different carrier tuple.
    WrongTuple,
    /// The carrier packet contains no QUICP datagram.
    EmptyPayload,
    /// The operating system did not provide secure randomness.
    Randomness,
}

}
