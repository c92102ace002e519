//! Writing IP/TCP packets.
use crate::address;
use crate::address::{IpAddress, SocketAddress};
use crate::endian;
use crate::faketcp::checksum;
use crate::faketcp::error::CarrierError;
use crate::faketcp::flags::TcpFlags;
use crate::faketcp::options;
use crate::faketcp::options::TcpOptions;
use crate::faketcp::tuple;
use vstd::prelude::*;

verus! {

pub const IPV4_HEADER_BYTES: usize = 20;

pub const IPV6_HEADER_BYTES: usize = 40;

pub const TCP_HEADER_BYTES: usize = 20;

pub const MAX_PACKET_BYTES: usize = 65535;

/// The fixed part of a TCP header.
pub open spec fn tcp_header(
    source_port: u16,
    destination_port: u16,
    sequence: u32,
    acknowledgment: u32,
    offset: u8,
    flags: u8,
    window: u16,
    sum: u16,
) -> Seq<u8> {
    endian::be16(source_port) + endian::be16(destination_port) + endian::be32(sequence) + endian::be32(acknowledgment)
        + seq![offset, flags] + endian::be16(window) + endian::be16(sum) + seq![0u8, 0u8]
}

/// An IPv4 header for a TCP packet of `total` bytes that must not be fragmented.
pub open spec fn ipv4_header(total: u16, source: u32, destination: u32, sum: u16) -> Seq<u8> {
    seq![0x45u8, 0u8] + endian::be16(total) + seq![0u8, 0u8, 0x40u8, 0u8, 64u8, 6u8] + endian::be16(sum)
        + endian::be32(source) + endian::be32(destination)
}

/// An IPv6 header for a TCP segment of `length` bytes.
pub open spec fn ipv6_header(length: u16, source: u128, destination: u128) -> Seq<u8> {
    seq![0x60u8, 0u8, 0u8, 0u8] + endian::be16(length) + seq![6u8, 64u8] + endian::be128(source) + endian::be128(
        destination,
    )
}

/// What a packet is made of, apart from its addresses.
pub struct SegmentModel {
    pub sequence: u32,
    pub acknowledgment: u32,
    pub flags: u8,
    pub window: u16,
    pub options: Seq<u8>,
    pub payload: Seq<u8>,
}

/// A TCP segment with the given checksum.
pub open spec fn segment_with(segment: SegmentModel, source_port: u16, destination_port: u16, sum: u16) -> Seq<u8> {
    tcp_header(
        source_port,
        destination_port,
        segment.sequence,
        segment.acknowledgment,
        ((20 + segment.options.len()) / 4 * 16) as u8,
        segment.flags,
        segment.window,
        sum,
    ) + segment.options + segment.payload
}

/// The checksum over a TCP segment together with the part that stands for its addresses.
pub open spec fn tcp_sum(prefix: int, tcp: Seq<u8>) -> u16 {
    checksum::complement(prefix + tcp.len() + checksum::word_sum(tcp))
}

/// A TCP segment with its checksum.
pub open spec fn segment_bytes(segment: SegmentModel, source_port: u16, destination_port: u16, prefix: int) -> Seq<u8> {
    segment_with(
        segment,
        source_port,
        destination_port,
        tcp_sum(prefix, segment_with(segment, source_port, destination_port, 0)),
    )
}

/// The length of the segment.
pub open spec fn segment_length(segment: SegmentModel) -> int {
    (20 + segment.options.len() + segment.payload.len()) as int
}

/// The length of the IP header that goes with an address.
pub open spec fn ip_header_length(ip: IpAddress) -> int {
    match ip {
        IpAddress::V4(_) => 20,
        IpAddress::V6(_) => 40,
    }
}

/// The IP header of a packet with its checksum.
pub open spec fn ip_header(source: IpAddress, destination: IpAddress, tcp_length: int) -> Seq<u8> {
    match (source, destination) {
        (IpAddress::V4(from), IpAddress::V4(to)) => {
            let total = (20 + tcp_length) as u16;
            ipv4_header(total, from, to, checksum::checksum_of(ipv4_header(total, from, to, 0)))
        },
        (IpAddress::V6(from), IpAddress::V6(to)) => ipv6_header(tcp_length as u16, from, to),
        _ => Seq::empty(),
    }
}

/// A complete packet.
pub open spec fn packet_bytes(
    source: SocketAddress,
    destination: SocketAddress,
    segment: SegmentModel,
    prefix: int,
) -> Seq<u8> {
    ip_header(source.ip, destination.ip, segment_length(segment)) + segment_bytes(
        segment,
        source.port,
        destination.port,
        prefix,
    )
}

/// The length of a complete packet.
pub open spec fn packet_length(source: SocketAddress, segment: SegmentModel) -> int {
    ip_header_length(source.ip) + segment_length(segment)
}

/// Why a packet cannot be written, if it cannot: its addresses, its options, its size.
pub open spec fn packet_refusal(
    source: SocketAddress,
    destination: SocketAddress,
    given: options::OptionsModel,
    segment: SegmentModel,
) -> Option<CarrierError> {
    if !tuple::same_family(source.ip, destination.ip) || source.port == 0 || destination.port == 0 {
        Some(CarrierError::InvalidTuple)
    } else if !options::encodable(given) {
        Some(CarrierError::InvalidTcpOption)
    } else if packet_length(source, segment) > 65535 {
        Some(CarrierError::PacketTooLarge)
    } else {
        None
    }
}

/// The content of a packet that is to be written.
pub open spec fn segment_of(
    sequence: u32,
    acknowledgment: u32,
    flags: TcpFlags,
    window: u16,
    given: options::OptionsModel,
    payload: Seq<u8>,
) -> SegmentModel {
    SegmentModel {
        sequence,
        acknowledgment,
        flags: flags.0,
        window,
        options: options::option_bytes(given),
        payload,
    }
}

proof fn lemma_word_sum_be32(value: u32)
    ensures
        checksum::word_sum(endian::be32(value)) == value / 0x1_0000 + value % 0x1_0000,
{
    let high = (value / 0x1_0000) as u16;
    let low = (value % 0x1_0000) as u16;
    assert(endian::be32(value) =~= endian::be16(high) + endian::be16(low));
    checksum::lemma_word_sum_concat(endian::be16(high), endian::be16(low));
    checksum::lemma_word_sum_be16(high);
    checksum::lemma_word_sum_be16(low);
}

/// The words of an IPv4 header add up to its constant words, its length, its checksum
/// and its addresses.
pub(crate) proof fn lemma_ipv4_header_sum(total: u16, source: u32, destination: u32, sum: u16)
    ensures
        ipv4_header(total, source, destination, sum).len() == 20,
        checksum::word_sum(ipv4_header(total, source, destination, sum)) == 0x4500 + total + 0x4000 + 0x4006 + sum
            + source / 0x1_0000 + source % 0x1_0000 + destination / 0x1_0000 + destination % 0x1_0000,
{
    let a = endian::be16(0x4500);
    let b = endian::be16(total);
    let c = endian::be16(0) + endian::be16(0x4000) + endian::be16(0x4006);
    let d = endian::be16(sum);
    let e = endian::be32(source);
    let f = endian::be32(destination);
    assert(a =~= seq![0x45u8, 0u8]);
    assert(c =~= seq![0u8, 0u8, 0x40u8, 0u8, 64u8, 6u8]);
    checksum::lemma_word_sum_be16(0x4500);
    checksum::lemma_word_sum_be16(total);
    checksum::lemma_word_sum_be16(0);
    checksum::lemma_word_sum_be16(0x4000);
    checksum::lemma_word_sum_be16(0x4006);
    checksum::lemma_word_sum_be16(sum);
    lemma_word_sum_be32(source);
    lemma_word_sum_be32(destination);
    checksum::lemma_word_sum_concat(endian::be16(0), endian::be16(0x4000));
    checksum::lemma_word_sum_concat(endian::be16(0) + endian::be16(0x4000), endian::be16(0x4006));
    checksum::lemma_word_sum_concat(a, b);
    checksum::lemma_word_sum_concat(a + b, c);
    checksum::lemma_word_sum_concat(a + b + c, d);
    checksum::lemma_word_sum_concat(a + b + c + d, e);
    checksum::lemma_word_sum_concat(a + b + c + d + e, f);
}

/// The checksum of an IPv4 header that this encoder writes.
pub fn ipv4_header_checksum(source: u32, destination: u32, total_length: u16) -> (sum: u16)
    ensures
        sum == checksum::checksum_of(ipv4_header(total_length, source, destination, 0)),
{
    proof {
        lemma_ipv4_header_sum(total_length, source, destination, 0);
    }
    let sum: u32 = total_length as u32 + 0x4500 + 0x4000 + 0x4006 + source / 0x1_0000 + source % 0x1_0000
        + destination / 0x1_0000 + destination % 0x1_0000;
    checksum::complement_of(sum)
}

/// The TCP checksum of a segment, given the part that stands for its addresses.
pub fn tcp_checksum_with_prefix(prefix: u32, tcp: &[u8]) -> (sum: u16)
    requires
        prefix <= 0x10_0000,
        tcp@.len() <= 65535,
    ensures
        sum == tcp_sum(prefix as int, tcp@),
{
    checksum::complement_of(prefix + tcp.len() as u32 + checksum::checksum_sum(tcp))
}

/// Writes `bytes` into `output` from `at` on.
pub(crate) fn put(output: &mut [u8], at: usize, bytes: &[u8])
    requires
        at + bytes@.len() <= old(output)@.len(),
    ensures
        final(output)@.len() == old(output)@.len(),
        final(output)@.take(at + bytes@.len()) == old(output)@.take(at as int) + bytes@,
        final(output)@.skip(at + bytes@.len()) == old(output)@.skip(at + bytes@.len()),
        forall|i: int|
            0 <= i < old(output)@.len() ==> #[trigger] final(output)@[i] == (if at <= i < at + bytes@.len() {
                bytes@[i - at]
            } else {
                old(output)@[i]
            }),
{
    let mut done: usize = 0;
    assert(output.len() == output@.len());
    while done < bytes.len()
        invariant
            done <= bytes@.len(),
            at + bytes@.len() <= output@.len() <= usize::MAX,
            output@.len() == old(output)@.len(),
            forall|i: int|
                0 <= i < output@.len() ==> #[trigger] output@[i] == (if at <= i < at + done {
                    bytes@[i - at]
                } else {
                    old(output)@[i]
                }),
        decreases bytes@.len() - done,
    {
        output[at + done] = bytes[done];
        done += 1;
    }
    assert(output@.take(at + bytes@.len()) =~= old(output)@.take(at as int) + bytes@);
    assert(output@.skip(at + bytes@.len()) =~= old(output)@.skip(at + bytes@.len()));
}

/// Writes the IP header of a packet.
fn put_ip_header(output: &mut [u8], source: IpAddress, destination: IpAddress, tcp_length: usize)
    requires
        tuple::same_family(source, destination),
        ip_header_length(source) + tcp_length <= 65535,
        ip_header_length(source) <= old(output)@.len(),
    ensures
        final(output)@.len() == old(output)@.len(),
        ip_header(source, destination, tcp_length as int).len() == ip_header_length(source),
        final(output)@.take(ip_header_length(source)) == ip_header(source, destination, tcp_length as int),
        final(output)@.skip(ip_header_length(source)) == old(output)@.skip(ip_header_length(source)),
{
    match (source, destination) {
        (IpAddress::V4(from), IpAddress::V4(to)) => {
            let total: u16 = (20 + tcp_length) as u16;
            let sum: u16 = ipv4_header_checksum(from, to, total);
            proof {
                lemma_ipv4_header_sum(total, from, to, sum);
            }
            let length_bytes: [u8; 2] = endian::to_be16(total);
            let sum_bytes: [u8; 2] = endian::to_be16(sum);
            let from_bytes: [u8; 4] = endian::to_be32(from);
            let to_bytes: [u8; 4] = endian::to_be32(to);
            let header: [u8; 20] = [
                0x45, 0, length_bytes[0], length_bytes[1],
                0, 0, 0x40, 0,
                64, tuple::TCP_PROTOCOL, sum_bytes[0], sum_bytes[1],
                from_bytes[0], from_bytes[1], from_bytes[2], from_bytes[3],
                to_bytes[0], to_bytes[1], to_bytes[2], to_bytes[3],
            ];
            assert(header@ =~= ipv4_header(total, from, to, sum));
            put(output, 0, header.as_slice());
            assert(old(output)@.take(0) + header@ =~= header@);
        },
        (IpAddress::V6(from), IpAddress::V6(to)) => {
            let length_bytes: [u8; 2] = endian::to_be16(tcp_length as u16);
            let start: [u8; 8] = [0x60, 0, 0, 0, length_bytes[0], length_bytes[1], tuple::TCP_PROTOCOL, 64];
            let ghost first = seq![0x60u8, 0u8, 0u8, 0u8] + endian::be16(tcp_length as u16) + seq![6u8, 64u8];
            assert(start@ =~= first);
            put(output, 0, start.as_slice());
            assert(old(output)@.take(0) + start@ =~= start@);
            let ghost one = output@;
            put(output, 8, endian::to_be128(from).as_slice());
            let ghost two = output@;
            assert(two.take(24) == first + endian::be128(from));
            assert(two.skip(24) =~= old(output)@.skip(24)) by {
                assert(one.skip(24) =~= one.skip(8).skip(16));
                assert(old(output)@.skip(24) =~= old(output)@.skip(8).skip(16));
            }
            put(output, 24, endian::to_be128(to).as_slice());
            assert(output@.skip(40) =~= old(output)@.skip(40)) by {
                assert(two.skip(40) =~= two.skip(24).skip(16));
                assert(old(output)@.skip(40) =~= old(output)@.skip(24).skip(16));
            }
        },
        _ => {},
    }
}

/// Writes a TCP segment without its checksum from `at` on.
fn put_segment(
    output: &mut [u8],
    at: usize,
    source_port: u16,
    destination_port: u16,
    sequence: u32,
    acknowledgment: u32,
    flags: u8,
    window: u16,
    option_bytes: &[u8],
    payload: &[u8],
)
    requires
        at + 20 + option_bytes@.len() + payload@.len() <= old(output)@.len(),
        option_bytes@.len() <= 40,
        option_bytes@.len() % 4 == 0,
    ensures
        ({
            let segment = SegmentModel {
                sequence,
                acknowledgment,
                flags,
                window,
                options: option_bytes@,
                payload: payload@,
            };
            let end = at + segment_length(segment);
            &&& final(output)@.len() == old(output)@.len()
            &&& segment_with(segment, source_port, destination_port, 0).len() == segment_length(segment)
            &&& final(output)@.take(end) == old(output)@.take(at as int) + segment_with(
                segment,
                source_port,
                destination_port,
                0,
            )
            &&& final(output)@.skip(end) == old(output)@.skip(end)
        }),
{
    assert(output.len() == output@.len());
    let ghost segment = SegmentModel {
        sequence,
        acknowledgment,
        flags,
        window,
        options: option_bytes@,
        payload: payload@,
    };
    let offset: u8 = ((20 + option_bytes.len()) / 4 * 16) as u8;
    let from: [u8; 2] = endian::to_be16(source_port);
    let to: [u8; 2] = endian::to_be16(destination_port);
    let number: [u8; 4] = endian::to_be32(sequence);
    let reply: [u8; 4] = endian::to_be32(acknowledgment);
    let size: [u8; 2] = endian::to_be16(window);
    let header: [u8; 20] = [
        from[0], from[1], to[0], to[1],
        number[0], number[1], number[2], number[3],
        reply[0], reply[1], reply[2], reply[3],
        offset, flags, size[0], size[1],
        0, 0, 0, 0,
    ];
    let ghost plain = tcp_header(
        source_port,
        destination_port,
        sequence,
        acknowledgment,
        offset,
        flags,
        window,
        0,
    );
    assert(header@ =~= plain);
    let ghost zero = output@;
    put(output, at, header.as_slice());
    let ghost one = output@;
    put(output, at + 20, option_bytes);
    let ghost two = output@;
    put(output, at + 20 + option_bytes.len(), payload);
    proof {
        let start = zero.take(at as int);
        let end = at + segment_length(segment);
        assert(two.take(at + 20 + option_bytes@.len()) == (start + plain) + option_bytes@);
        assert(output@.take(end) == ((start + plain) + option_bytes@) + payload@);
        assert(((start + plain) + option_bytes@) + payload@ =~= start + segment_with(
            segment,
            source_port,
            destination_port,
            0,
        ));
        assert(output@.skip(end) =~= zero.skip(end));
    }
}

proof fn lemma_checksum_patched(
    segment: SegmentModel,
    source_port: u16,
    destination_port: u16,
    sum: u16,
    before: Seq<u8>,
    after: Seq<u8>,
)
    requires
        before == segment_with(segment, source_port, destination_port, 0),
        after.len() == before.len(),
        forall|i: int|
            0 <= i < before.len() ==> #[trigger] after[i] == (if 16 <= i < 18 {
                endian::be16(sum)[i - 16]
            } else {
                before[i]
            }),
    ensures
        after == segment_with(segment, source_port, destination_port, sum),
{
    let expected = segment_with(segment, source_port, destination_port, sum);
    assert(expected.len() == before.len());
    assert forall|i: int| 0 <= i < after.len() implies #[trigger] after[i] == expected[i] by {
        if 16 <= i < 18 {
            assert(expected[i] == endian::be16(sum)[i - 16]);
        } else {
            assert(expected[i] == before[i]);
        }
    }
    assert(after =~= expected);
}

/// Writes one complete packet into `output`.
///
/// `prefix` is the checksum part that stands for the addresses. What lies in `output`
/// behind the packet stays; on an error all of it stays.
pub fn encode_packet_into(
    source: SocketAddress,
    destination: SocketAddress,
    sequence: u32,
    acknowledgment: u32,
    flags: TcpFlags,
    window: u16,
    given: &TcpOptions,
    payload: &[u8],
    output: &mut [u8],
    prefix: u32,
) -> (result: Result<usize, CarrierError>)
    requires
        prefix <= 0x10_0000,
    ensures
        ({
            let segment = segment_of(sequence, acknowledgment, flags, window, given@, payload@);
            let length = packet_length(source, segment);
            match packet_refusal(source, destination, given@, segment) {
                Some(error) => result == Err::<usize, CarrierError>(error) && final(output)@ == old(output)@,
                None => if old(output)@.len() < length {
                    result == Err::<usize, CarrierError>(
                        CarrierError::OutputTooSmall {
                            required: length as usize,
                            available: old(output)@.len() as usize,
                        },
                    ) && final(output)@ == old(output)@
                } else {
                    &&& result == Ok::<usize, CarrierError>(length as usize)
                    &&& packet_bytes(source, destination, segment, prefix as int).len() == length
                    &&& final(output)@ == packet_bytes(source, destination, segment, prefix as int) + old(
                        output,
                    )@.skip(length)
                },
            }
        }),
        final(output)@.len() == old(output)@.len(),
{
    assert(output.len() == output@.len());
    if source.ip.is_ipv4() != destination.ip.is_ipv4() || source.port == 0 || destination.port == 0 {
        return Err(CarrierError::InvalidTuple);
    }
    let header_length: usize = if source.ip.is_ipv4() {
        IPV4_HEADER_BYTES
    } else {
        IPV6_HEADER_BYTES
    };
    let option_bytes: Vec<u8> = match given.encode() {
        Ok(bytes) => bytes,
        Err(error) => {
            return Err(error);
        },
    };
    if payload.len() > MAX_PACKET_BYTES {
        return Err(CarrierError::PacketTooLarge);
    }
    let tcp_length: usize = TCP_HEADER_BYTES + option_bytes.len() + payload.len();
    let length: usize = header_length + tcp_length;
    if length > MAX_PACKET_BYTES {
        return Err(CarrierError::PacketTooLarge);
    }
    if output.len() < length {
        return Err(CarrierError::OutputTooSmall { required: length, available: output.len() });
    }
    let ghost segment = segment_of(sequence, acknowledgment, flags, window, given@, payload@);
    let ghost zero = output@;
    put_ip_header(output, source.ip, destination.ip, tcp_length);
    let ghost one = output@;
    let ghost header = ip_header(source.ip, destination.ip, tcp_length as int);
    put_segment(
        output,
        header_length,
        source.port,
        destination.port,
        sequence,
        acknowledgment,
        flags.bits(),
        window,
        option_bytes.as_slice(),
        payload,
    );
    let ghost two = output@;
    let ghost plain = segment_with(segment, source.port, destination.port, 0);
    let tcp: &[u8] = vstd::slice::slice_subrange(&*output, header_length, length);
    assert(tcp@ =~= plain) by {
        assert(two.take(length as int).skip(header_length as int) =~= (header + plain).skip(header_length as int));
        assert((header + plain).skip(header_length as int) =~= plain);
        assert(two.take(length as int).skip(header_length as int) =~= two.subrange(
            header_length as int,
            length as int,
        ));
    }
    let sum: u16 = tcp_checksum_with_prefix(prefix, tcp);
    let sum_bytes: [u8; 2] = endian::to_be16(sum);
    put(output, header_length + 16, sum_bytes.as_slice());
    proof {
        let patched = output@.subrange(header_length as int, length as int);
        assert forall|i: int| 0 <= i < plain.len() implies #[trigger] patched[i] == (if 16 <= i < 18 {
            endian::be16(sum)[i - 16]
        } else {
            plain[i]
        }) by {
            assert(patched[i] == output@[header_length + i]);
            assert(two[header_length + i] == two.subrange(header_length as int, length as int)[i]);
        }
        lemma_checksum_patched(segment, source.port, destination.port, sum, plain, patched);
        let packet = packet_bytes(source, destination, segment, prefix as int);
        assert(packet == header + patched);
        assert(output@ =~= packet + zero.skip(length as int)) by {
            assert forall|i: int| 0 <= i < output@.len() implies #[trigger] output@[i] == (packet + zero.skip(
                length as int,
            ))[i] by {
                if i < header_length {
                    assert(two[i] == two.take(length as int)[i]);
                    assert((one.take(header_length as int) + plain)[i] == header[i]);
                } else if i < length {
                    assert(output@[i] == patched[i - header_length]);
                } else {
                    assert(two[i] == two.skip(length as int)[i - length]);
                    assert(one.skip(length as int)[i - length] == one[i]);
                    assert(one[i] == one.skip(header_length as int)[i - header_length]);
                    assert(zero[i] == zero.skip(header_length as int)[i - header_length]);
                }
            }
        }
    }
    Ok(length)
}

}
