//! Reading IP/TCP packets.
use crate::address::{IpAddress, SocketAddress};
use crate::endian;
use crate::faketcp::checksum;
use crate::faketcp::encode;
use crate::faketcp::encode::{IPV4_HEADER_BYTES, IPV6_HEADER_BYTES, MAX_PACKET_BYTES, TCP_HEADER_BYTES};
use crate::faketcp::error::CarrierError;
use crate::faketcp::flags::TcpFlags;
use crate::faketcp::options;
use crate::faketcp::tuple;
use crate::faketcp::tuple::TCP_PROTOCOL;
use vstd::prelude::*;

verus! {

/// A packet whose parts are borrowed from its bytes.
#[derive(Debug)]
pub struct PacketView<'a> {
    pub source: SocketAddress,
    pub destination: SocketAddress,
    pub sequence: u32,
    pub acknowledgment: u32,
    pub flags: TcpFlags,
    pub window: u16,
    pub options: &'a [u8],
    pub fast_open_cookie: Option<&'a [u8]>,
    pub payload: &'a [u8],
}

/// The content of a packet.
pub struct ViewModel {
    pub source: SocketAddress,
    pub destination: SocketAddress,
    pub sequence: u32,
    pub acknowledgment: u32,
    pub flags: TcpFlags,
    pub window: u16,
    pub options: Seq<u8>,
    pub cookie: Option<Seq<u8>>,
    pub payload: Seq<u8>,
}

impl<'a> View for PacketView<'a> {
    type V = ViewModel;

    open spec fn view(&self) -> ViewModel {
        ViewModel {
            source: self.source,
            destination: self.destination,
            sequence: self.sequence,
            acknowledgment: self.acknowledgment,
            flags: self.flags,
            window: self.window,
            options: self.options@,
            cookie: options::slice_content(self.fast_open_cookie),
            payload: self.payload@,
        }
    }
}

/// An address without flow information or scope.
pub open spec fn plain_address(ip: IpAddress, port: u16) -> SocketAddress {
    SocketAddress { ip, port, flow_info: 0, scope_id: 0 }
}

/// What a TCP segment between two addresses says. `prefix` is the checksum part that
/// stands for the addresses, where the caller has it already.
pub open spec fn segment_view(
    source: IpAddress,
    destination: IpAddress,
    input: Seq<u8>,
    prefix: Option<int>,
) -> Result<ViewModel, CarrierError> {
    let addresses = match prefix {
        Some(sum) => sum,
        None => tuple::pseudo_sum(source, destination),
    };
    let header = input[12] / 16 * 4;
    if input.len() < 20 || encode::tcp_sum(addresses, input) != 0 || header < 20 || header > input.len() {
        Err(CarrierError::InvalidTcpHeader)
    } else {
        let option_bytes = input.subrange(20, header as int);
        match options::cookie_in(option_bytes, None) {
            Err(error) => Err(error),
            Ok(cookie) => Ok(
                ViewModel {
                    source: plain_address(source, endian::be16_at(input, 0)),
                    destination: plain_address(destination, endian::be16_at(input, 2)),
                    sequence: endian::be32_at(input, 4),
                    acknowledgment: endian::be32_at(input, 8),
                    flags: TcpFlags(input[13]),
                    window: endian::be16_at(input, 14),
                    options: option_bytes,
                    cookie,
                    payload: input.skip(header as int),
                },
            ),
        }
    }
}

/// Whether the IPv4 header of a packet is sound: its length fields fit the packet, it is
/// no fragment, it carries TCP, and its checksum is right.
pub open spec fn ipv4_sound(input: Seq<u8>) -> bool {
    let header = input[0] % 16 * 4;
    let total = endian::be16_at(input, 2);
    &&& 20 <= header <= input.len()
    &&& total == input.len()
    &&& total >= header + 20
    &&& endian::be16_at(input, 6) % 0x4000 == 0
    &&& input[9] == 6
    &&& checksum::checksum_of(input.take(header as int)) == 0
}

/// Whether the IPv6 header of a packet is sound: its length field fits the packet and TCP
/// follows directly.
pub open spec fn ipv6_sound(input: Seq<u8>) -> bool {
    &&& input.len() >= 40
    &&& endian::be16_at(input, 4) + 40 == input.len()
    &&& input[6] == 6
}

/// What a packet says.
pub open spec fn packet_view(input: Seq<u8>, prefix: Option<int>) -> Result<ViewModel, CarrierError> {
    if input.len() < 20 {
        Err(CarrierError::PacketTooShort)
    } else if input.len() > 65535 {
        Err(CarrierError::PacketTooLarge)
    } else if input[0] / 16 == 4 {
        if !ipv4_sound(input) {
            Err(CarrierError::InvalidIpHeader)
        } else {
            segment_view(
                IpAddress::V4(endian::be32_at(input, 12)),
                IpAddress::V4(endian::be32_at(input, 16)),
                input.skip(input[0] % 16 * 4),
                prefix,
            )
        }
    } else if input[0] / 16 == 6 {
        if !ipv6_sound(input) {
            Err(CarrierError::InvalidIpHeader)
        } else {
            segment_view(
                IpAddress::V6(endian::be128_at(input, 8)),
                IpAddress::V6(endian::be128_at(input, 24)),
                input.skip(40),
                prefix,
            )
        }
    } else {
        Err(CarrierError::UnsupportedIpVersion)
    }
}

/// A number that may be given, as a mathematical one.
pub open spec fn given_sum(prefix: Option<u32>) -> Option<int> {
    match prefix {
        Some(sum) => Some(sum as int),
        None => None,
    }
}

fn decode_tcp_view<'a>(
    source: IpAddress,
    destination: IpAddress,
    input: &'a [u8],
    prefix: Option<u32>,
) -> (result: Result<PacketView<'a>, CarrierError>)
    requires
        tuple::same_family(source, destination),
        input@.len() <= 65535,
        prefix matches Some(sum) ==> sum <= 0x10_0000,
    ensures
        match result {
            Ok(view) => segment_view(source, destination, input@, given_sum(prefix)) == Ok::<ViewModel, CarrierError>(
                view@,
            ),
            Err(error) => segment_view(source, destination, input@, given_sum(prefix)) == Err::<
                ViewModel,
                CarrierError,
            >(error),
        },
{
    let addresses: u32 = match prefix {
        Some(sum) => sum,
        None => match tuple::tcp_pseudo_header_prefix(source, destination) {
            Some(sum) => sum,
            None => 0,
        },
    };
    if input.len() < TCP_HEADER_BYTES || encode::tcp_checksum_with_prefix(addresses, input) != 0 {
        return Err(CarrierError::InvalidTcpHeader);
    }
    let header: usize = input[12] as usize / 16 * 4;
    if header < TCP_HEADER_BYTES || header > input.len() {
        return Err(CarrierError::InvalidTcpHeader);
    }
    let option_bytes: &[u8] = vstd::slice::slice_subrange(input, TCP_HEADER_BYTES, header);
    let cookie: Option<&[u8]> = match options::fast_open_cookie(option_bytes) {
        Ok(cookie) => cookie,
        Err(error) => {
            return Err(error);
        },
    };
    let payload: &[u8] = vstd::slice::slice_subrange(input, header, input.len());
    assert(payload@ =~= input@.skip(header as int));
    Ok(
        PacketView {
            source: SocketAddress::new(source, endian::read_be16_at(input, 0)),
            destination: SocketAddress::new(destination, endian::read_be16_at(input, 2)),
            sequence: endian::read_be32_at(input, 4),
            acknowledgment: endian::read_be32_at(input, 8),
            flags: TcpFlags(input[13]),
            window: endian::read_be16_at(input, 14),
            options: option_bytes,
            fast_open_cookie: cookie,
            payload,
        },
    )
}

/// Reads and verifies one complete packet, without copying any of it.
pub fn decode_packet_view<'a>(input: &'a [u8], prefix: Option<u32>) -> (result: Result<PacketView<'a>, CarrierError>)
    requires
        prefix matches Some(sum) ==> sum <= 0x10_0000,
    ensures
        match result {
            Ok(view) => packet_view(input@, given_sum(prefix)) == Ok::<ViewModel, CarrierError>(view@),
            Err(error) => packet_view(input@, given_sum(prefix)) == Err::<ViewModel, CarrierError>(error),
        },
{
    if input.len() < IPV4_HEADER_BYTES {
        return Err(CarrierError::PacketTooShort);
    }
    if input.len() > MAX_PACKET_BYTES {
        return Err(CarrierError::PacketTooLarge);
    }
    if input[0] / 16 == 4 {
        let header: usize = input[0] as usize % 16 * 4;
        if header < IPV4_HEADER_BYTES || input.len() < header {
            return Err(CarrierError::InvalidIpHeader);
        }
        let total: usize = endian::read_be16_at(input, 2) as usize;
        if total != input.len() || total < header + TCP_HEADER_BYTES {
            return Err(CarrierError::InvalidIpHeader);
        }
        let fragment: u16 = endian::read_be16_at(input, 6);
        let start: &[u8] = vstd::slice::slice_subrange(input, 0, header);
        assert(start@ =~= input@.take(header as int));
        if fragment % 0x4000 != 0 || input[9] != TCP_PROTOCOL || checksum::internet_checksum(start) != 0 {
            return Err(CarrierError::InvalidIpHeader);
        }
        let tcp: &[u8] = vstd::slice::slice_subrange(input, header, input.len());
        assert(tcp@ =~= input@.skip(header as int));
        decode_tcp_view(
            IpAddress::V4(endian::read_be32_at(input, 12)),
            IpAddress::V4(endian::read_be32_at(input, 16)),
            tcp,
            prefix,
        )
    } else if input[0] / 16 == 6 {
        if input.len() < IPV6_HEADER_BYTES {
            return Err(CarrierError::InvalidIpHeader);
        }
        let length: usize = endian::read_be16_at(input, 4) as usize;
        if length + IPV6_HEADER_BYTES != input.len() || input[6] != TCP_PROTOCOL {
            return Err(CarrierError::InvalidIpHeader);
        }
        let tcp: &[u8] = vstd::slice::slice_subrange(input, IPV6_HEADER_BYTES, input.len());
        assert(tcp@ =~= input@.skip(40));
        decode_tcp_view(
            IpAddress::V6(endian::read_be128_at(input, 8)),
            IpAddress::V6(endian::read_be128_at(input, 24)),
            tcp,
            prefix,
        )
    } else {
        Err(CarrierError::UnsupportedIpVersion)
    }
}

}
