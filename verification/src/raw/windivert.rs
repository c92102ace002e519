//! What the adapter decides that receives and sends through WinDivert.
use crate::address::{IpAddress, SocketAddress};
use crate::crypto;
use crate::faketcp::carrier;
use crate::faketcp::carrier::{CarrierModel, FakeTcpCarrier};
use crate::faketcp::encode::put;
use crate::faketcp::error::CarrierError;
use crate::faketcp::tuple::FourTuple;
use crate::raw::error::RawError;
use crate::raw::receive;
use crate::raw::send;
use crate::storage;
use crate::text;
use vstd::prelude::*;

verus! {

/// One direction of the filter: the packets from one address and port to another.
pub open spec fn direction_text(source: u32, source_port: u16, destination: u32, destination_port: u16) -> Seq<char> {
    " and ip.SrcAddr == "@ + text::dotted(source) + " and ip.DstAddr == "@ + text::dotted(destination)
        + " and tcp.SrcPort == "@ + text::decimal(source_port as nat) + " and tcp.DstPort == "@ + text::decimal(
        destination_port as nat,
    )
}

/// The filter of a path: its packets in both directions, but none that another program
/// put there.
pub open spec fn filter_text(source: u32, source_port: u16, destination: u32, destination_port: u16) -> Seq<char> {
    "ip and tcp and !impostor and ((outbound"@ + direction_text(source, source_port, destination, destination_port)
        + ") or (inbound"@ + direction_text(destination, destination_port, source, source_port) + "))"@
}

fn append_direction(
    filter: &mut String,
    source: u32,
    source_port: u16,
    destination: u32,
    destination_port: u16,
)
    ensures
        final(filter)@ == old(filter)@ + direction_text(source, source_port, destination, destination_port),
{
    filter.append(" and ip.SrcAddr == ");
    text::append_address(filter, source);
    filter.append(" and ip.DstAddr == ");
    text::append_address(filter, destination);
    filter.append(" and tcp.SrcPort == ");
    text::append_decimal(filter, source_port as u32);
    filter.append(" and tcp.DstPort == ");
    text::append_decimal(filter, destination_port as u32);
    assert(filter@ =~= old(filter)@ + direction_text(source, source_port, destination, destination_port));
}

/// The filter of an IPv4 path.
pub fn build_filter(given: FourTuple) -> (result: Result<String, RawError>)
    ensures
        match (given.source.ip, given.destination.ip) {
            (IpAddress::V4(source), IpAddress::V4(destination)) => result matches Ok(filter) && filter@
                == filter_text(source, given.source.port, destination, given.destination.port),
            _ => result matches Err(error) && error == RawError::Unsupported,
        },
{
    match (given.source.ip, given.destination.ip) {
        (IpAddress::V4(source), IpAddress::V4(destination)) => {
            let mut filter = String::from_str("ip and tcp and !impostor and ((outbound");
            append_direction(&mut filter, source, given.source.port, destination, given.destination.port);
            filter.append(") or (inbound");
            append_direction(&mut filter, destination, given.destination.port, source, given.source.port);
            filter.append("))");
            assert(filter@ =~= filter_text(source, given.source.port, destination, given.destination.port));
            Ok(filter)
        },
        _ => Err(RawError::Unsupported),
    }
}

/// The SHA-256 digest of the supported library.
pub open spec fn library_digest() -> Seq<u8> {
    seq![
        0xc1, 0xe0, 0x60, 0xee, 0x19, 0x44, 0x4a, 0x25, 0x9b, 0x21, 0x62, 0xf8, 0xaf, 0x0f, 0x3f, 0xe8,
        0xc4, 0x42, 0x8a, 0x1c, 0x6f, 0x69, 0x4d, 0xce, 0x20, 0xde, 0x19, 0x4a, 0xc8, 0xd7, 0xd9, 0xa2,
    ]
}

/// The SHA-256 digest of the supported driver.
pub open spec fn driver_digest() -> Seq<u8> {
    seq![
        0x8d, 0xa0, 0x85, 0x33, 0x27, 0x82, 0x70, 0x8d, 0x87, 0x67, 0xbc, 0xac, 0xe5, 0x32, 0x7a, 0x6e,
        0xc7, 0x28, 0x3c, 0x17, 0xcf, 0xb8, 0x5e, 0x40, 0xb0, 0x3c, 0xd2, 0x32, 0x3a, 0x90, 0xdd, 0xc2,
    ]
}

/// Checks that a file has the expected SHA-256 digest.
pub fn verify_sha256(contents: &[u8], expected: &[u8]) -> (result: Result<(), RawError>)
    requires
        contents@.len() <= crypto::MAX_DIGEST_INPUT,
    ensures
        result == (if crypto::sha256_of(contents@) == expected@ {
            Ok::<(), RawError>(())
        } else {
            Err(RawError::Untrusted)
        }),
{
    let digest = crypto::sha256(contents);
    if storage::equal(digest.as_slice(), expected) {
        Ok(())
    } else {
        Err(RawError::Untrusted)
    }
}

/// Checks that a file is the supported library.
pub fn verify_library(contents: &[u8]) -> (result: Result<(), RawError>)
    requires
        contents@.len() <= crypto::MAX_DIGEST_INPUT,
    ensures
        result == (if crypto::sha256_of(contents@) == library_digest() {
            Ok::<(), RawError>(())
        } else {
            Err(RawError::Untrusted)
        }),
{
    let expected: [u8; 32] = [
        0xc1, 0xe0, 0x60, 0xee, 0x19, 0x44, 0x4a, 0x25, 0x9b, 0x21, 0x62, 0xf8, 0xaf, 0x0f, 0x3f, 0xe8,
        0xc4, 0x42, 0x8a, 0x1c, 0x6f, 0x69, 0x4d, 0xce, 0x20, 0xde, 0x19, 0x4a, 0xc8, 0xd7, 0xd9, 0xa2,
    ];
    assert(expected@ =~= library_digest());
    verify_sha256(contents, &expected)
}

/// Checks that a file is the supported driver.
pub fn verify_driver(contents: &[u8]) -> (result: Result<(), RawError>)
    requires
        contents@.len() <= crypto::MAX_DIGEST_INPUT,
    ensures
        result == (if crypto::sha256_of(contents@) == driver_digest() {
            Ok::<(), RawError>(())
        } else {
            Err(RawError::Untrusted)
        }),
{
    let expected: [u8; 32] = [
        0x8d, 0xa0, 0x85, 0x33, 0x27, 0x82, 0x70, 0x8d, 0x87, 0x67, 0xbc, 0xac, 0xe5, 0x32, 0x7a, 0x6e,
        0xc7, 0x28, 0x3c, 0x17, 0xcf, 0xb8, 0x5e, 0x40, 0xb0, 0x3c, 0xd2, 0x32, 0x3a, 0x90, 0xdd, 0xc2,
    ];
    assert(expected@ =~= driver_digest());
    verify_sha256(contents, &expected)
}

/// A part of a path.
#[derive(Clone, Copy, Debug, PartialEq, Eq, Structural)]
pub enum PathComponent {
    /// A name.
    Normal,
    /// A root, a prefix, or a step to the same or the parent directory.
    Special,
}

/// Checks the name of a library: it is one name, and no path.
pub fn check_library_name(components: &[PathComponent]) -> (result: Result<(), RawError>)
    ensures
        result == (if components@ == seq![PathComponent::Normal] {
            Ok::<(), RawError>(())
        } else {
            Err(RawError::InvalidLibraryName)
        }),
{
    if components.len() == 1 && components[0] == PathComponent::Normal {
        assert(components@ =~= seq![PathComponent::Normal]);
        Ok(())
    } else {
        Err(RawError::InvalidLibraryName)
    }
}

/// Checks where a library was found: it has an absolute path, is a file, and stands in the
/// directory of the application.
pub fn check_library_place(absolute: bool, in_application_directory: bool, is_file: bool) -> (result: Result<
    (),
    RawError,
>)
    ensures
        result == (if absolute && in_application_directory && is_file {
            Ok::<(), RawError>(())
        } else {
            Err(RawError::Untrusted)
        }),
{
    if absolute && in_application_directory && is_file {
        Ok(())
    } else {
        Err(RawError::Untrusted)
    }
}

/// What tells two files apart: the volume, and the identifier on it.
#[derive(Clone, Copy, Debug)]
pub struct FileIdentity {
    /// The serial number of the volume.
    pub volume: u64,
    /// The identifier of the file.
    pub identifier: [u8; 16],
}

/// Checks that the module that was loaded is the file that was verified: it has the same
/// path, and is the same file.
pub fn verify_loaded_path(same_path: bool, loaded: FileIdentity, held: FileIdentity) -> (result: Result<(), RawError>)
    ensures
        result == (if same_path && loaded.volume == held.volume && loaded.identifier@ == held.identifier@ {
            Ok::<(), RawError>(())
        } else {
            Err(RawError::Untrusted)
        }),
{
    if same_path && loaded.volume == held.volume && storage::equal(&loaded.identifier, &held.identifier) {
        Ok(())
    } else {
        Err(RawError::Untrusted)
    }
}

/// Checks the kind of an opened file: the directory or the file that was asked for, and no
/// reparse point.
pub fn check_opened(wants_directory: bool, is_directory: bool, is_file: bool, reparse_point: bool) -> (result: Result<
    (),
    RawError,
>)
    ensures
        result == (if (if wants_directory {
            is_directory
        } else {
            is_file
        }) && !reparse_point {
            Ok::<(), RawError>(())
        } else {
            Err(RawError::Untrusted)
        }),
{
    if (wants_directory && !is_directory) || (!wants_directory && !is_file) || reparse_point {
        Err(RawError::Untrusted)
    } else {
        Ok(())
    }
}

/// Whether the receiving thread forwards what it got into a buffer of `room` bytes.
pub fn forwards(length: usize, room: usize) -> (forwarded: bool)
    ensures
        forwarded == (0 < length <= room),
{
    length > 0 && length <= room
}

/// Checks that a packet was sent whole.
pub fn check_injected(sent: u32, length: u32) -> (result: Result<(), RawError>)
    ensures
        result == (if sent == length {
            Ok::<(), RawError>(())
        } else {
            Err(RawError::PartiallySent)
        }),
{
    if sent == length {
        Ok(())
    } else {
        Err(RawError::PartiallySent)
    }
}

/// The receiving half: the carrier that decodes packets, one at a time.
#[derive(Debug)]
pub struct PacketReceiver {
    /// The carrier.
    pub inbound: FakeTcpCarrier,
    /// How many packets were rejected so far.
    pub decode_rejects: u64,
}

/// What became of one received packet.
#[derive(Clone, Copy, Debug, PartialEq, Eq, Structural)]
pub enum PacketStep {
    /// Its datagram, of this length, is in the buffer.
    Filled(usize),
    /// It was rejected; the next one may be looked at.
    Again,
    /// It was rejected, and the call yields.
    Yield,
}

/// What one packet does to a receiver whose buffer has `room` bytes, in a call that has
/// rejected `rejects` packets.
pub open spec fn packet_step(state: CarrierModel, packet: Seq<u8>, room: int, rejects: int) -> PacketStep {
    match carrier::datagram_in(state, packet) {
        Ok(view) if view.payload.len() <= room => PacketStep::Filled(view.payload.len() as usize),
        _ => if rejects + 1 >= receive::MAX_DECODE_REJECTS_PER_POLL {
            PacketStep::Yield
        } else {
            PacketStep::Again
        },
    }
}

impl PacketReceiver {
    /// Decodes one packet into `output`. `rejects` counts what this call rejected.
    pub fn receive(&mut self, packet: &[u8], output: &mut [u8], rejects: &mut usize) -> (step: PacketStep)
        requires
            old(self).inbound.wf(),
            *old(rejects) < receive::MAX_DECODE_REJECTS_PER_POLL,
        ensures
            final(self).inbound.wf(),
            step == packet_step(
                old(self).inbound@,
                packet@,
                old(output)@.len() as int,
                *old(rejects) as int,
            ),
            match carrier::datagram_in(old(self).inbound@, packet@) {
                Ok(view) => final(self).inbound@ == carrier::after_receiving(old(self).inbound@, view),
                Err(_) => final(self).inbound@ == old(self).inbound@,
            },
            match step {
                PacketStep::Filled(length) => {
                    &&& carrier::datagram_in(old(self).inbound@, packet@) matches Ok(view)
                    &&& final(output)@ == view.payload + old(output)@.skip(length as int)
                    &&& *final(rejects) == *old(rejects)
                    &&& final(self).decode_rejects == old(self).decode_rejects
                },
                _ => {
                    &&& final(output)@ == old(output)@
                    &&& *final(rejects) == *old(rejects) + 1
                    &&& final(self).decode_rejects == receive::counted(old(self).decode_rejects)
                },
            },
    {
        match self.inbound.decode_datagram_borrowed(packet) {
            Ok(decoded) => {
                let payload = decoded.payload();
                if payload.len() <= output.len() {
                    let length: usize = payload.len();
                    put(output, 0, payload);
                    assert(output@ =~= payload@ + old(output)@.skip(length as int));
                    return PacketStep::Filled(length);
                }
            },
            Err(_) => {},
        }
        self.decode_rejects = self.decode_rejects.saturating_add(1);
        *rejects = *rejects + 1;
        if *rejects >= receive::MAX_DECODE_REJECTS_PER_POLL {
            PacketStep::Yield
        } else {
            PacketStep::Again
        }
    }
}

/// How a datagram is cut.
#[derive(Clone, Copy, Debug, PartialEq, Eq, Structural)]
pub struct SegmentPlan {
    /// The size of a segment.
    pub size: usize,
    /// How many segments there are.
    pub count: usize,
    /// The room that a packet needs.
    pub capacity: usize,
}

/// How a datagram of `length` bytes is cut, or why it is refused.
pub open spec fn planned(
    given: FourTuple,
    destination: SocketAddress,
    source: Option<IpAddress>,
    length: int,
    segment_size: Option<usize>,
) -> Result<SegmentPlan, RawError> {
    let size = match segment_size {
        Some(size) => size as int,
        None => length,
    };
    match send::path_refusal(given, destination, source) {
        Some(error) => Err(error),
        None => if size == 0 || length == 0 {
            Err(RawError::InvalidSegmentation)
        } else if size + 80 > usize::MAX {
            Err(RawError::PacketCapacityOverflow)
        } else {
            Ok(
                SegmentPlan {
                    size: size as usize,
                    count: send::segments_of(length, size) as usize,
                    capacity: (size + 80) as usize,
                },
            )
        },
    }
}

/// Decides how a datagram is cut.
pub fn plan_segments(
    given: FourTuple,
    destination: SocketAddress,
    source: Option<IpAddress>,
    length: usize,
    segment_size: Option<usize>,
) -> (result: Result<SegmentPlan, RawError>)
    ensures
        result == planned(given, destination, source, length as int, segment_size),
{
    if destination != given.destination {
        return Err(RawError::DestinationMismatch);
    }
    if let Some(address) = source {
        if address != given.source.ip {
            return Err(RawError::SourceMismatch);
        }
    }
    let size: usize = match segment_size {
        Some(size) => size,
        None => length,
    };
    if size == 0 || length == 0 {
        return Err(RawError::InvalidSegmentation);
    }
    match size.checked_add(80) {
        Some(capacity) => Ok(SegmentPlan { size, count: send::segment_count(length, size), capacity }),
        None => Err(RawError::PacketCapacityOverflow),
    }
}

/// Writes the packet of the segment `index` to the front of `pending`.
pub fn encode_segment(
    outbound: &mut FakeTcpCarrier,
    server_side: bool,
    contents: &[u8],
    plan: SegmentPlan,
    index: usize,
    pending: &mut Vec<u8>,
) -> (result: Result<usize, CarrierError>)
    requires
        old(outbound).wf(),
        plan.size > 0,
        plan.count == send::segments_of(contents@.len() as int, plan.size as int),
        index < plan.count,
    ensures
        final(outbound).wf(),
        match send::carried(
            old(outbound)@,
            server_side,
            send::segment_at(contents@, plan.size as int, index as int),
            plan.capacity as int,
        ) {
            Err(error) => result == Err::<usize, CarrierError>(error) && final(outbound)@ == old(outbound)@,
            Ok((packet, next)) => result == Ok::<usize, CarrierError>(packet.len() as usize)
                && final(outbound)@ == next && packet.len() <= final(pending)@.len() && final(pending)@.take(
                packet.len() as int,
            ) == packet,
        },
{
    if pending.len() < plan.capacity {
        pending.resize(plan.capacity, 0);
    }
    let (from, to) = send::segment_range(contents.len(), plan.size, index);
    let datagram = vstd::slice::slice_subrange(contents, from, to);
    assert(datagram@ == send::segment_at(contents@, plan.size as int, index as int));
    let result = send::encode_at(outbound, server_side, datagram, pending, 0, plan.capacity);
    proof {
        if let Ok(length) = result {
            assert(pending@.subrange(0, 0 + length) =~= pending@.take(length as int));
        }
    }
    result
}

}
