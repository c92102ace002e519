//! One complete raw packet.
use crate::address::{IpAddress, SocketAddress};
use crate::endian;
use crate::faketcp::checksum;
use crate::faketcp::decode;
use crate::faketcp::decode::ViewModel;
use crate::faketcp::encode;
use crate::faketcp::encode::SegmentModel;
use crate::faketcp::error::CarrierError;
use crate::faketcp::flags::TcpFlags;
use crate::faketcp::options;
use crate::faketcp::options::TcpOptions;
use crate::faketcp::tuple;
use vstd::prelude::*;

verus! {

/// One complete raw IP/TCP packet. The payload is an opaque QUICP datagram, not a UDP
/// datagram.
#[derive(Clone, Debug, PartialEq, Eq)]
pub struct FakeTcpPacket {
    pub source: SocketAddress,
    pub destination: SocketAddress,
    pub sequence: u32,
    pub acknowledgment: u32,
    pub flags: TcpFlags,
    pub window: u16,
    pub options: TcpOptions,
    pub payload: Vec<u8>,
}

/// The content of a [`FakeTcpPacket`].
pub struct PacketModel {
    pub source: SocketAddress,
    pub destination: SocketAddress,
    pub sequence: u32,
    pub acknowledgment: u32,
    pub flags: TcpFlags,
    pub window: u16,
    pub options: options::OptionsModel,
    pub payload: Seq<u8>,
}

impl View for FakeTcpPacket {
    type V = PacketModel;

    open spec fn view(&self) -> PacketModel {
        PacketModel {
            source: self.source,
            destination: self.destination,
            sequence: self.sequence,
            acknowledgment: self.acknowledgment,
            flags: self.flags,
            window: self.window,
            options: self.options@,
            payload: self.payload@,
        }
    }
}

/// The segment of a packet.
pub open spec fn segment_in(packet: PacketModel) -> SegmentModel {
    encode::segment_of(
        packet.sequence,
        packet.acknowledgment,
        packet.flags,
        packet.window,
        packet.options,
        packet.payload,
    )
}

/// The bytes of a packet.
pub open spec fn bytes_of(packet: PacketModel) -> Seq<u8> {
    encode::packet_bytes(
        packet.source,
        packet.destination,
        segment_in(packet),
        tuple::pseudo_sum(packet.source.ip, packet.destination.ip),
    )
}

/// Why a packet has no bytes, if it has none.
pub open spec fn refusal_of(packet: PacketModel) -> Option<CarrierError> {
    encode::packet_refusal(packet.source, packet.destination, packet.options, segment_in(packet))
}

/// The packet that bytes hold.
pub open spec fn packet_in(input: Seq<u8>) -> Result<PacketModel, CarrierError> {
    match decode::packet_view(input, None) {
        Err(error) => Err(error),
        Ok(view) => match options::parsed(view.options, options::no_options()) {
            Err(error) => Err(error),
            Ok(parsed) => Ok(
                PacketModel {
                    source: view.source,
                    destination: view.destination,
                    sequence: view.sequence,
                    acknowledgment: view.acknowledgment,
                    flags: view.flags,
                    window: view.window,
                    options: parsed,
                    payload: view.payload,
                },
            ),
        },
    }
}

impl FakeTcpPacket {
    /// Parses and verifies one complete IPv4 or IPv6 TCP packet.
    pub fn decode(input: &[u8]) -> (result: Result<FakeTcpPacket, CarrierError>)
        ensures
            match result {
                Ok(packet) => packet_in(input@) == Ok::<PacketModel, CarrierError>(packet@),
                Err(error) => packet_in(input@) == Err::<PacketModel, CarrierError>(error),
            },
    {
        let view = match decode::decode_packet_view(input, None) {
            Ok(view) => view,
            Err(error) => {
                return Err(error);
            },
        };
        let parsed: TcpOptions = match TcpOptions::decode(view.options) {
            Ok(parsed) => parsed,
            Err(error) => {
                return Err(error);
            },
        };
        Ok(
            FakeTcpPacket {
                source: view.source,
                destination: view.destination,
                sequence: view.sequence,
                acknowledgment: view.acknowledgment,
                flags: view.flags,
                window: view.window,
                options: parsed,
                payload: vstd::slice::slice_to_vec(view.payload),
            },
        )
    }

    /// Serializes the packet with IPv4/IPv6 and TCP checksums.
    pub fn encode(&self) -> (result: Result<Vec<u8>, CarrierError>)
        ensures
            match result {
                Ok(bytes) => refusal_of(self@) is None && bytes@ == bytes_of(self@),
                Err(error) => refusal_of(self@) == Some(error),
            },
    {
        if self.source.ip.is_ipv4() != self.destination.ip.is_ipv4() || self.source.port == 0
            || self.destination.port == 0 {
            return Err(CarrierError::InvalidTuple);
        }
        let option_bytes: Vec<u8> = match self.options.encode() {
            Ok(bytes) => bytes,
            Err(error) => {
                return Err(error);
            },
        };
        let header: usize = if self.source.ip.is_ipv4() {
            encode::IPV4_HEADER_BYTES
        } else {
            encode::IPV6_HEADER_BYTES
        };
        if self.payload.len() > encode::MAX_PACKET_BYTES {
            return Err(CarrierError::PacketTooLarge);
        }
        let length: usize = header + encode::TCP_HEADER_BYTES + option_bytes.len() + self.payload.len();
        if length > encode::MAX_PACKET_BYTES {
            return Err(CarrierError::PacketTooLarge);
        }
        let mut packet: Vec<u8> = vec![0; length];
        match self.encode_into(packet.as_mut_slice()) {
            Ok(_) => {
                assert(packet@ =~= bytes_of(self@));
                Ok(packet)
            },
            Err(error) => Err(error),
        }
    }

    /// Serializes the packet into caller-owned storage without allocating the packet
    /// buffer.
    pub fn encode_into(&self, output: &mut [u8]) -> (result: Result<usize, CarrierError>)
        ensures
            final(output)@.len() == old(output)@.len(),
            ({
                let length = encode::packet_length(self@.source, segment_in(self@));
                match refusal_of(self@) {
                    Some(error) => result == Err::<usize, CarrierError>(error) && final(output)@ == old(output)@,
                    None => if old(output)@.len() < length {
                        result == Err::<usize, CarrierError>(
                            CarrierError::OutputTooSmall {
                                required: length as usize,
                                available: old(output)@.len() as usize,
                            },
                        ) && final(output)@ == old(output)@
                    } else {
                        &&& result == Ok::<usize, CarrierError>(length as usize)
                        &&& bytes_of(self@).len() == length
                        &&& final(output)@ == bytes_of(self@) + old(output)@.skip(length)
                    },
                }
            }),
    {
        let prefix: u32 = match tuple::tcp_pseudo_header_prefix(self.source.ip, self.destination.ip) {
            Some(prefix) => prefix,
            None => {
                return Err(CarrierError::InvalidTuple);
            },
        };
        encode::encode_packet_into(
            self.source,
            self.destination,
            self.sequence,
            self.acknowledgment,
            self.flags,
            self.window,
            &self.options,
            self.payload.as_slice(),
            output,
            prefix,
        )
    }

    pub fn source(&self) -> (source: SocketAddress)
        ensures
            source == self@.source,
    {
        self.source
    }

    pub fn destination(&self) -> (destination: SocketAddress)
        ensures
            destination == self@.destination,
    {
        self.destination
    }

    pub fn sequence(&self) -> (sequence: u32)
        ensures
            sequence == self@.sequence,
    {
        self.sequence
    }

    pub fn acknowledgment(&self) -> (acknowledgment: u32)
        ensures
            acknowledgment == self@.acknowledgment,
    {
        self.acknowledgment
    }

    pub fn flags(&self) -> (flags: TcpFlags)
        ensures
            flags == self@.flags,
    {
        self.flags
    }

    pub fn window(&self) -> (window: u16)
        ensures
            window == self@.window,
    {
        self.window
    }

    pub fn options(&self) -> (options: &TcpOptions)
        ensures
            options@ == self@.options,
    {
        &self.options
    }

    pub fn payload(&self) -> (payload: &[u8])
        ensures
            payload@ == self@.payload,
    {
        self.payload.as_slice()
    }
}

// ---------------------------------------------------------------------------
// Round trip
// ---------------------------------------------------------------------------

proof fn lemma_header_ends(segment: SegmentModel, source_port: u16, destination_port: u16, sum: u16)
    requires
        segment.options.len() <= 40,
        segment.options.len() % 4 == 0,
    ensures
        ({
            let bytes = encode::segment_with(segment, source_port, destination_port, sum);
            let header = 20 + segment.options.len() as int;
            &&& bytes.len() == encode::segment_length(segment)
            &&& endian::be16_at(bytes, 0) == source_port
            &&& endian::be16_at(bytes, 2) == destination_port
            &&& endian::be32_at(bytes, 4) == segment.sequence
            &&& endian::be32_at(bytes, 8) == segment.acknowledgment
            &&& bytes[12] / 16 * 4 == header
            &&& bytes[13] == segment.flags
            &&& endian::be16_at(bytes, 14) == segment.window
            &&& bytes.subrange(20, header) == segment.options
            &&& bytes.skip(header) == segment.payload
        }),
{
    let bytes = encode::segment_with(segment, source_port, destination_port, sum);
    endian::lemma_be16(source_port);
    endian::lemma_be16(destination_port);
    endian::lemma_be32(segment.sequence);
    endian::lemma_be32(segment.acknowledgment);
    endian::lemma_be16(segment.window);
    assert(bytes[0] == endian::be16(source_port)[0] && bytes[1] == endian::be16(source_port)[1]);
    assert(bytes[2] == endian::be16(destination_port)[0] && bytes[3] == endian::be16(destination_port)[1]);
    let number = endian::be32(segment.sequence);
    assert(bytes[4] == number[0] && bytes[5] == number[1] && bytes[6] == number[2] && bytes[7] == number[3]);
    let reply = endian::be32(segment.acknowledgment);
    assert(bytes[8] == reply[0] && bytes[9] == reply[1] && bytes[10] == reply[2] && bytes[11] == reply[3]);
    assert(bytes[14] == endian::be16(segment.window)[0] && bytes[15] == endian::be16(segment.window)[1]);
    let header = 20 + segment.options.len() as int;
    assert(bytes.subrange(20, header) =~= segment.options);
    assert(bytes.skip(header) =~= segment.payload);
}

/// A segment's own checksum makes the checksum over all of it zero.
proof fn lemma_segment_checks(segment: SegmentModel, source_port: u16, destination_port: u16, prefix: int)
    requires
        prefix >= 0,
    ensures
        encode::tcp_sum(prefix, encode::segment_bytes(segment, source_port, destination_port, prefix)) == 0,
{
    let sum = encode::tcp_sum(prefix, encode::segment_with(segment, source_port, destination_port, 0));
    let plain = encode::segment_with(segment, source_port, destination_port, 0);
    let full = encode::segment_with(segment, source_port, destination_port, sum);
    let start = plain.take(16);
    let rest = plain.skip(18);
    assert(plain =~= (start + endian::be16(0)) + rest);
    assert(full =~= (start + endian::be16(sum)) + rest);
    checksum::lemma_word_sum_concat(start, endian::be16(0));
    checksum::lemma_word_sum_concat(start, endian::be16(sum));
    checksum::lemma_word_sum_concat(start + endian::be16(0), rest);
    checksum::lemma_word_sum_concat(start + endian::be16(sum), rest);
    checksum::lemma_word_sum_be16(0);
    checksum::lemma_word_sum_be16(sum);
    checksum::lemma_word_sum_bounds(plain);
    checksum::lemma_checksum_completes(prefix + plain.len() + checksum::word_sum(plain));
}

/// A segment that was written reads back as it was.
pub proof fn lemma_segment_round_trip(
    source: SocketAddress,
    destination: SocketAddress,
    segment: SegmentModel,
    prefix: int,
    given: Option<int>,
)
    requires
        segment.options.len() <= 40,
        segment.options.len() % 4 == 0,
        options::cookie_in(segment.options, None) is Ok,
        prefix >= 0,
        given == Some(prefix) || given is None && prefix == tuple::pseudo_sum(source.ip, destination.ip),
    ensures
        decode::segment_view(
            source.ip,
            destination.ip,
            encode::segment_bytes(segment, source.port, destination.port, prefix),
            given,
        ) == Ok::<ViewModel, CarrierError>(view_of(source, destination, segment)),
{
    let sum = encode::tcp_sum(prefix, encode::segment_with(segment, source.port, destination.port, 0));
    lemma_header_ends(segment, source.port, destination.port, sum);
    lemma_segment_checks(segment, source.port, destination.port, prefix);
}

/// What the packet with this segment says.
pub open spec fn view_of(source: SocketAddress, destination: SocketAddress, segment: SegmentModel) -> ViewModel {
    ViewModel {
        source: decode::plain_address(source.ip, source.port),
        destination: decode::plain_address(destination.ip, destination.port),
        sequence: segment.sequence,
        acknowledgment: segment.acknowledgment,
        flags: TcpFlags(segment.flags),
        window: segment.window,
        options: segment.options,
        cookie: options::cookie_in(segment.options, None)->Ok_0,
        payload: segment.payload,
    }
}

proof fn lemma_ipv4_round_trip(from: u32, to: u32, tcp: Seq<u8>)
    requires
        20 <= tcp.len(),
        20 + tcp.len() <= 65535,
    ensures
        ({
            let input = encode::ip_header(IpAddress::V4(from), IpAddress::V4(to), tcp.len() as int) + tcp;
            &&& input.len() == 20 + tcp.len()
            &&& input[0] == 0x45
            &&& decode::ipv4_sound(input)
            &&& endian::be32_at(input, 12) == from
            &&& endian::be32_at(input, 16) == to
            &&& input.skip(20) == tcp
        }),
{
    let total = (20 + tcp.len()) as u16;
    let sum = checksum::checksum_of(encode::ipv4_header(total, from, to, 0));
    let header = encode::ipv4_header(total, from, to, sum);
    let input = header + tcp;
    encode::lemma_ipv4_header_sum(total, from, to, 0);
    encode::lemma_ipv4_header_sum(total, from, to, sum);
    checksum::lemma_checksum_completes(checksum::word_sum(encode::ipv4_header(total, from, to, 0)));
    endian::lemma_be16(total);
    endian::lemma_be32(from);
    endian::lemma_be32(to);
    assert(input.take(20) =~= header);
    assert(input.skip(20) =~= tcp);
    assert(input[0] == 0x45);
    assert(input[2] == endian::be16(total)[0] && input[3] == endian::be16(total)[1]);
    assert(input[6] == 0x40 && input[7] == 0 && input[9] == 6);
    let a = endian::be32(from);
    let b = endian::be32(to);
    assert(input[12] == a[0] && input[13] == a[1] && input[14] == a[2] && input[15] == a[3]);
    assert(input[16] == b[0] && input[17] == b[1] && input[18] == b[2] && input[19] == b[3]);
    assert(endian::be16_at(input, 6) == 0x4000);
}

proof fn lemma_be32_inside(input: Seq<u8>, at: int, from: int)
    requires
        0 <= at,
        at + 16 <= input.len(),
        0 <= from <= 12,
    ensures
        endian::be32_at(input.subrange(at, at + 16), from) == endian::be32_at(input, at + from),
{
}

proof fn lemma_be128_inside(input: Seq<u8>, at: int, value: u128)
    requires
        0 <= at,
        at + 16 <= input.len(),
        input.subrange(at, at + 16) == endian::be128(value),
    ensures
        endian::be128_at(input, at) == value,
{
    endian::lemma_be128(value);
    let part = input.subrange(at, at + 16);
    lemma_be32_inside(input, at, 0);
    lemma_be32_inside(input, at, 4);
    lemma_be32_inside(input, at, 8);
    lemma_be32_inside(input, at, 12);
    assert(endian::be64_at(part, 0) == endian::be64_at(input, at));
    assert(endian::be64_at(part, 8) == endian::be64_at(input, at + 8));
}

proof fn lemma_ipv6_round_trip(from: u128, to: u128, tcp: Seq<u8>)
    requires
        tcp.len() <= 65535,
    ensures
        ({
            let input = encode::ip_header(IpAddress::V6(from), IpAddress::V6(to), tcp.len() as int) + tcp;
            &&& input.len() == 40 + tcp.len()
            &&& input[0] == 0x60
            &&& decode::ipv6_sound(input)
            &&& endian::be128_at(input, 8) == from
            &&& endian::be128_at(input, 24) == to
            &&& input.skip(40) == tcp
        }),
{
    let length = tcp.len() as u16;
    let header = encode::ipv6_header(length, from, to);
    let input = header + tcp;
    endian::lemma_be16(length);
    assert(input.skip(40) =~= tcp);
    assert(input[0] == 0x60);
    assert(input[4] == endian::be16(length)[0] && input[5] == endian::be16(length)[1]);
    assert(input[6] == 6);
    assert(input.subrange(8, 24) =~= endian::be128(from));
    assert(input.subrange(24, 40) =~= endian::be128(to));
    lemma_be128_inside(input, 8, from);
    lemma_be128_inside(input, 24, to);
}

proof fn lemma_ipv4_opens(input: Seq<u8>, from: u32, to: u32, given: Option<int>)
    requires
        40 <= input.len() <= 65535,
        input[0] == 0x45,
        decode::ipv4_sound(input),
        endian::be32_at(input, 12) == from,
        endian::be32_at(input, 16) == to,
    ensures
        decode::packet_view(input, given) == decode::segment_view(
            IpAddress::V4(from),
            IpAddress::V4(to),
            input.skip(20),
            given,
        ),
{
}

proof fn lemma_ipv6_opens(input: Seq<u8>, from: u128, to: u128, given: Option<int>)
    requires
        60 <= input.len() <= 65535,
        input[0] == 0x60,
        decode::ipv6_sound(input),
        endian::be128_at(input, 8) == from,
        endian::be128_at(input, 24) == to,
    ensures
        decode::packet_view(input, given) == decode::segment_view(
            IpAddress::V6(from),
            IpAddress::V6(to),
            input.skip(40),
            given,
        ),
{
}

/// Reading a packet is reading the segment behind its IP header.
proof fn lemma_packet_opens(source: IpAddress, destination: IpAddress, tcp: Seq<u8>, given: Option<int>)
    requires
        tuple::same_family(source, destination),
        20 <= tcp.len(),
        (if source is V4 {
            20int
        } else {
            40int
        }) + tcp.len() <= 65535,
    ensures
        decode::packet_view(encode::ip_header(source, destination, tcp.len() as int) + tcp, given)
            == decode::segment_view(source, destination, tcp, given),
{
    match (source, destination) {
        (IpAddress::V4(from), IpAddress::V4(to)) => {
            lemma_ipv4_round_trip(from, to, tcp);
            let input = encode::ip_header(source, destination, tcp.len() as int) + tcp;
            lemma_ipv4_opens(input, from, to, given);
        },
        (IpAddress::V6(from), IpAddress::V6(to)) => {
            lemma_ipv6_round_trip(from, to, tcp);
            let input = encode::ip_header(source, destination, tcp.len() as int) + tcp;
            lemma_ipv6_opens(input, from, to, given);
        },
        _ => {},
    }
}

/// A packet that was written reads back as it was, whether the reader computes the
/// checksum part of the addresses itself or has it from the writer.
pub proof fn law_packet_view_round_trip(
    source: SocketAddress,
    destination: SocketAddress,
    segment: SegmentModel,
    prefix: int,
    given: Option<int>,
)
    requires
        tuple::same_family(source.ip, destination.ip),
        encode::packet_length(source, segment) <= 65535,
        segment.options.len() <= 40,
        segment.options.len() % 4 == 0,
        options::cookie_in(segment.options, None) is Ok,
        prefix >= 0,
        given == Some(prefix) || given is None && prefix == tuple::pseudo_sum(source.ip, destination.ip),
    ensures
        decode::packet_view(encode::packet_bytes(source, destination, segment, prefix), given) == Ok::<
            ViewModel,
            CarrierError,
        >(view_of(source, destination, segment)),
{
    let tcp = encode::segment_bytes(segment, source.port, destination.port, prefix);
    assert(tcp.len() == encode::segment_length(segment) && 20 <= tcp.len()) by {
        let sum = encode::tcp_sum(prefix, encode::segment_with(segment, source.port, destination.port, 0));
        lemma_header_ends(segment, source.port, destination.port, sum);
    }
    lemma_segment_round_trip(source, destination, segment, prefix, given);
    lemma_packet_opens(source.ip, destination.ip, tcp, given);
}

pub(crate) proof fn lemma_option_bytes_size(given: options::OptionsModel)
    requires
        options::encodable(given),
        options::zero_filled(given),
    ensures
        options::option_bytes(given).len() <= 40,
        options::option_bytes(given).len() % 4 == 0,
        options::cookie_in(options::option_bytes(given), None) is Ok,
{
    options::law_options_round_trip(given);
}

/// Decoding the bytes of a packet gives the packet back.
///
/// Flow information and scope of an address are not part of the bytes, so both must be
/// zero; and the packet must be one that has bytes at all.
pub proof fn law_packet_round_trip(packet: PacketModel)
    requires
        refusal_of(packet) is None,
        options::zero_filled(packet.options),
        packet.source == decode::plain_address(packet.source.ip, packet.source.port),
        packet.destination == decode::plain_address(packet.destination.ip, packet.destination.port),
    ensures
        packet_in(bytes_of(packet)) == Ok::<PacketModel, CarrierError>(packet),
{
    let segment = segment_in(packet);
    options::law_options_round_trip(packet.options);
    lemma_option_bytes_size(packet.options);
    tuple::lemma_pseudo_sum_bounds(packet.source.ip, packet.destination.ip);
    law_packet_view_round_trip(
        packet.source,
        packet.destination,
        segment,
        tuple::pseudo_sum(packet.source.ip, packet.destination.ip),
        None,
    );
}

/// A packet that was read, where it can be written, reads back as it was.
///
/// A port of zero, which is read but not written, and options that leave no room for the
/// payload once they are written in full are refused by the writer.
pub proof fn law_read_packet_round_trip(input: Seq<u8>)
    ensures
        packet_in(input) matches Ok(packet) ==> refusal_of(packet) is None ==> packet_in(bytes_of(packet)) == Ok::<
            PacketModel,
            CarrierError,
        >(packet),
{
    if let Ok(packet) = packet_in(input) {
        if refusal_of(packet) is None {
            options::law_read_options_are_zero_filled(decode::packet_view(input, None)->Ok_0.options);
            law_packet_round_trip(packet);
        }
    }
}

/// A packet is as long as its headers and its payload.
pub(crate) proof fn lemma_packet_length(
    source: SocketAddress,
    destination: SocketAddress,
    segment: SegmentModel,
    prefix: int,
)
    requires
        tuple::same_family(source.ip, destination.ip),
    ensures
        encode::packet_bytes(source, destination, segment, prefix).len() == encode::packet_length(source, segment),
{
    let sum = encode::tcp_sum(prefix, encode::segment_with(segment, source.port, destination.port, 0));
    assert(encode::segment_with(segment, source.port, destination.port, sum).len() == encode::segment_length(
        segment,
    ));
}

}
