//! What can go wrong in a raw-socket adapter.
use crate::faketcp::error::CarrierError;
use vstd::prelude::*;

verus! {

/// Errors of the raw-socket adapters.
#[derive(Clone, Copy, Debug, PartialEq, Eq, Structural)]
pub enum RawError {
    /// The carrier refused a packet or a path.
    Carrier(CarrierError),
    /// The address family, or the mode, is not one that the adapter supports.
    Unsupported,
    /// A receive call came without a buffer.
    NoReceiveBuffer,
    /// The end of a received packet cannot be counted.
    PacketLengthOverflow,
    /// A received packet lies outside the receive storage.
    PacketExceedsStorage,
    /// The start of a received payload cannot be counted.
    PayloadOffsetOverflow,
    /// The end of a received payload cannot be counted.
    PayloadLengthOverflow,
    /// A received payload lies outside the receive storage.
    PayloadExceedsStorage,
    /// The length of a group of payloads cannot be counted.
    GroupLengthOverflow,
    /// A packet lies outside its ring frame.
    PacketExceedsFrame,
    /// The position of a ring frame cannot be counted.
    FrameOffsetOverflow,
    /// A datagram is addressed to another destination than the path's.
    DestinationMismatch,
    /// A datagram comes from another source than the path's.
    SourceMismatch,
    /// A datagram is to be cut into segments of no bytes, or there is no datagram.
    InvalidSegmentation,
    /// The room that a packet needs cannot be counted.
    PacketCapacityOverflow,
    /// The room that a batch of packets needs cannot be counted.
    BatchCapacityOverflow,
    /// The start of a packet in the send storage cannot be counted.
    HeaderOffsetOverflow,
    /// The end of a packet in the send storage cannot be counted.
    HeaderLengthOverflow,
    /// A packet lies outside the send storage.
    PacketExceedsSendStorage,
    /// A packet is too short to have an IPv4 header.
    MissingIpv4Header,
    /// A send call sent no packet.
    NothingSent,
    /// A send call sent a part of a packet.
    PartiallySent,
    /// The receive storage is too small for a batch.
    ReceiveStorageTooSmall,
    /// No route leads to the destination.
    NoRoute,
    /// No neighbor is known by the next hop's address.
    NoNeighbor,
    /// A library name is not one path component.
    InvalidLibraryName,
    /// A file is not where, or what, a trusted file has to be.
    Untrusted,
}

}
