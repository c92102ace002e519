//! What decides which packet is read, and what it brings.
use crate::address::IpAddress;
use crate::endian;
use crate::faketcp::carrier;
use crate::faketcp::carrier::{DecodedDatagram, FakeTcpCarrier};
use crate::faketcp::checksum;
use crate::faketcp::decode;
use crate::faketcp::decode::{PacketView, ViewModel};
use crate::faketcp::encode;
use crate::faketcp::error::CarrierError;
use crate::faketcp::packet;
use crate::faketcp::packet::FakeTcpPacket;
use vstd::prelude::*;

verus! {

/// A 16-bit number at a place, its high byte first.
pub open spec fn word(bytes: Seq<u8>, at: int) -> int {
    bytes[at] * 256 + bytes[at + 1]
}

/// Whether a sum of 16-bit words that holds its own checksum is right: a positive multiple of
/// 65535.
pub open spec fn checks(sum: int) -> bool {
    sum > 0 && sum % 65535 == 0
}

/// The sum of the 16-bit words of some bytes, the first word first; an odd last byte is the
/// high half of a word.
pub open spec fn total_of_words(bytes: Seq<u8>) -> int
    decreases bytes.len(),
{
    if bytes.len() == 0 {
        0
    } else if bytes.len() == 1 {
        bytes[0] * 256
    } else {
        word(bytes, 0) + total_of_words(bytes.skip(2))
    }
}

proof fn lemma_total_of_words(bytes: Seq<u8>)
    ensures
        checksum::word_sum(bytes) == total_of_words(bytes),
    decreases bytes.len(),
{
    if bytes.len() == 1 {
        reveal_with_fuel(checksum::word_sum, 2);
        assert(bytes.drop_last().len() == 0);
    } else if bytes.len() > 1 {
        let front = bytes.take(2);
        lemma_total_of_words(bytes.skip(2));
        checksum::lemma_word_sum_concat(front, bytes.skip(2));
        assert(front + bytes.skip(2) =~= bytes);
        reveal_with_fuel(checksum::word_sum, 3);
        assert(front.drop_last().drop_last().len() == 0);
        assert(front.last() == bytes[1] && front.drop_last().last() == bytes[0]);
    }
}

proof fn lemma_checks(sum: int)
    requires
        sum >= 0,
    ensures
        checksum::complement(sum) == 0 <==> checks(sum),
{
    if sum > 0 {
        let q = (sum - 1) / 65535;
        let r = (sum - 1) % 65535;
        assert(sum - 1 == 65535 * q + r && 0 <= r < 65535);
        if checks(sum) {
            let m = sum / 65535;
            assert(sum == 65535 * m);
            assert(r == 65534) by {
                assert(65535 * (m - q) == r + 1);
            }
        }
        if r == 65534 {
            assert(sum == 65535 * (q + 1));
            vstd::arithmetic::div_mod::lemma_mod_multiples_basic(q + 1, 65535);
        }
    }
}

/// The Internet checksum of some bytes makes the sum of their words right: with it, the sum is
/// a positive multiple of 65535. It is 65535 only over zero bytes.
pub proof fn law_checksum_makes_the_sum_right(input: &[u8], sum: u16)
    requires
        input@.len() <= 65535,
        call_ensures(checksum::internet_checksum, (input,), sum),
    ensures
        checks(total_of_words(input@) + sum),
        sum == 65535 <==> total_of_words(input@) == 0,
{
    lemma_total_of_words(input@);
    checksum::lemma_word_sum_bounds(input@);
    checksum::lemma_checksum_completes(checksum::word_sum(input@));
    lemma_checks(checksum::word_sum(input@) + sum);
}

// ---------------------------------------------------------------------------
// The IP header
// ---------------------------------------------------------------------------

/// Whether two IPv4 packets differ in nothing but the type of service, the identification, the
/// reserved and the don't-fragment bit, the time to live and the header checksum.
pub open spec fn same_but_for_ipv4_extras(left: Seq<u8>, right: Seq<u8>) -> bool {
    &&& left.len() == right.len()
    &&& forall|at: int|
        0 <= at < left.len() && at != 1 && at != 4 && at != 5 && at != 6 && at != 8 && at != 10 && at != 11
            ==> #[trigger] left[at] == right[at]
    &&& left.len() > 6 ==> left[6] % 64 == right[6] % 64
}

proof fn lemma_ipv4_extras_sound(left: Seq<u8>, right: Seq<u8>)
    requires
        20 <= left.len() <= 65535,
        left[0] / 16 == 4,
        same_but_for_ipv4_extras(left, right),
        checks(total_of_words(left.take(left[0] % 16 * 4))),
        checks(total_of_words(right.take(left[0] % 16 * 4))),
    ensures
        left[0] == right[0],
        decode::ipv4_sound(left) == decode::ipv4_sound(right),
{
    let header = left[0] % 16 * 4;
    let first = left.take(header as int);
    let second = right.take(header as int);
    assert(left[0] == right[0]);
    assert(left[2] == right[2] && left[3] == right[3] && left[7] == right[7] && left[9] == right[9]);
    lemma_total_of_words(first);
    lemma_total_of_words(second);
    checksum::lemma_word_sum_bounds(first);
    checksum::lemma_word_sum_bounds(second);
    lemma_checks(checksum::word_sum(first));
    lemma_checks(checksum::word_sum(second));
    lemma_fragment(left[6], left[7]);
    lemma_fragment(right[6], right[7]);
    assert(endian::be16_at(left, 6) % 0x4000 == endian::be16_at(right, 6) % 0x4000);
    assert(endian::be16_at(left, 2) == endian::be16_at(right, 2));
}

proof fn lemma_fragment(high: u8, low: u8)
    ensures
        endian::from_be16(high, low) % 0x4000 == (high % 64) * 256 + low,
{
}

proof fn lemma_ipv4_extras(left: Seq<u8>, right: Seq<u8>, prefix: Option<int>)
    requires
        left.len() > 0,
        left[0] / 16 == 4,
        same_but_for_ipv4_extras(left, right),
        checks(total_of_words(left.take(left[0] % 16 * 4))),
        checks(total_of_words(right.take(left[0] % 16 * 4))),
    ensures
        decode::packet_view(left, prefix) == decode::packet_view(right, prefix),
{
    if 20 <= left.len() <= 65535 {
        let header = left[0] % 16 * 4;
        lemma_ipv4_extras_sound(left, right);
        assert(left[12] == right[12] && left[13] == right[13] && left[14] == right[14] && left[15] == right[15]);
        assert(left[16] == right[16] && left[17] == right[17] && left[18] == right[18] && left[19] == right[19]);
        assert(endian::be32_at(left, 12) == endian::be32_at(right, 12));
        assert(endian::be32_at(left, 16) == endian::be32_at(right, 16));
        if 20 <= header <= left.len() {
            assert(left.skip(header as int) =~= right.skip(header as int));
        }
    }
}

/// What an IPv4 packet brings does not depend on its type of service, its identification, its
/// don't-fragment bit or its time to live: with the header checksum right, two packets that
/// differ in nothing else are read alike, or refused alike.
pub proof fn law_ipv4_extras_do_not_matter(
    input: &[u8],
    other: &[u8],
    prefix: Option<u32>,
    read: Result<PacketView, CarrierError>,
    read_other: Result<PacketView, CarrierError>,
)
    requires
        input@.len() > 0,
        input@[0] / 16 == 4,
        same_but_for_ipv4_extras(input@, other@),
        checks(total_of_words(input@.take(input@[0] % 16 * 4))),
        checks(total_of_words(other@.take(input@[0] % 16 * 4))),
        call_ensures(decode::decode_packet_view, (input, prefix), read),
        call_ensures(decode::decode_packet_view, (other, prefix), read_other),
    ensures
        read is Ok <==> read_other is Ok,
        read is Ok ==> read->Ok_0@ == read_other->Ok_0@,
        read is Err ==> read->Err_0 == read_other->Err_0,
{
    lemma_ipv4_extras(input@, other@, decode::given_sum(prefix));
}

/// Whether two IPv6 packets differ in nothing but the traffic class, the flow label and the
/// hop limit.
pub open spec fn same_but_for_ipv6_extras(left: Seq<u8>, right: Seq<u8>) -> bool {
    &&& left.len() == right.len()
    &&& forall|at: int| 4 <= at < left.len() && at != 7 ==> #[trigger] left[at] == right[at]
    &&& left.len() > 0 ==> left[0] / 16 == right[0] / 16
}

proof fn lemma_ipv6_extras(left: Seq<u8>, right: Seq<u8>, prefix: Option<int>)
    requires
        left.len() > 0,
        left[0] / 16 == 6,
        same_but_for_ipv6_extras(left, right),
    ensures
        decode::packet_view(left, prefix) == decode::packet_view(right, prefix),
{
    if left.len() >= 40 {
        assert(left[4] == right[4] && left[5] == right[5] && left[6] == right[6]);
        assert(left.skip(40) =~= right.skip(40));
        assert(left.subrange(8, 40) =~= right.subrange(8, 40));
        assert forall|at: int| 8 <= at <= 36 implies endian::be32_at(left, at) == endian::be32_at(right, at) by {
            assert(left[at] == right[at] && left[at + 1] == right[at + 1] && left[at + 2] == right[at + 2] && left[at
                + 3] == right[at + 3]);
        }
        assert(endian::be64_at(left, 8) == endian::be64_at(right, 8));
        assert(endian::be64_at(left, 16) == endian::be64_at(right, 16));
        assert(endian::be64_at(left, 24) == endian::be64_at(right, 24));
        assert(endian::be64_at(left, 32) == endian::be64_at(right, 32));
    }
}

/// What an IPv6 packet brings does not depend on its traffic class, its flow label or its hop
/// limit.
pub proof fn law_ipv6_extras_do_not_matter(
    input: &[u8],
    other: &[u8],
    prefix: Option<u32>,
    read: Result<PacketView, CarrierError>,
    read_other: Result<PacketView, CarrierError>,
)
    requires
        input@.len() > 0,
        input@[0] / 16 == 6,
        same_but_for_ipv6_extras(input@, other@),
        call_ensures(decode::decode_packet_view, (input, prefix), read),
        call_ensures(decode::decode_packet_view, (other, prefix), read_other),
    ensures
        read is Ok <==> read_other is Ok,
        read is Ok ==> read->Ok_0@ == read_other->Ok_0@,
        read is Err ==> read->Err_0 == read_other->Err_0,
{
    lemma_ipv6_extras(input@, other@, decode::given_sum(prefix));
}

/// The same of whole packets, with their options: neither the time to live of an IPv4 packet
/// nor the hop limit of an IPv6 packet, nor the other extras of either, changes what it is.
pub proof fn law_packet_does_not_depend_on_extras(
    input: &[u8],
    other: &[u8],
    read: Result<FakeTcpPacket, CarrierError>,
    read_other: Result<FakeTcpPacket, CarrierError>,
)
    requires
        input@.len() > 0,
        input@[0] / 16 == 6 && same_but_for_ipv6_extras(input@, other@) || {
            &&& input@[0] / 16 == 4
            &&& same_but_for_ipv4_extras(input@, other@)
            &&& checks(total_of_words(input@.take(input@[0] % 16 * 4)))
            &&& checks(total_of_words(other@.take(input@[0] % 16 * 4)))
        },
        call_ensures(FakeTcpPacket::decode, (input,), read),
        call_ensures(FakeTcpPacket::decode, (other,), read_other),
    ensures
        read is Ok <==> read_other is Ok,
        read is Ok ==> read->Ok_0@ == read_other->Ok_0@,
        read is Err ==> read->Err_0 == read_other->Err_0,
{
    if input@[0] / 16 == 4 {
        lemma_ipv4_extras(input@, other@, None);
    } else {
        lemma_ipv6_extras(input@, other@, None);
    }
}

/// The same of datagrams: which datagram a packet brings to a carrier does not depend on the
/// time to live or the hop limit with which it arrives, nor on the other extras.
pub proof fn law_datagram_does_not_depend_on_extras(
    receiver: &mut FakeTcpCarrier,
    input: &[u8],
    read: Result<DecodedDatagram, CarrierError>,
    again: &mut FakeTcpCarrier,
    other: &[u8],
    read_other: Result<DecodedDatagram, CarrierError>,
)
    requires
        old(again)@ == old(receiver)@,
        input@.len() > 0,
        input@[0] / 16 == 6 && same_but_for_ipv6_extras(input@, other@) || {
            &&& input@[0] / 16 == 4
            &&& same_but_for_ipv4_extras(input@, other@)
            &&& checks(total_of_words(input@.take(input@[0] % 16 * 4)))
            &&& checks(total_of_words(other@.take(input@[0] % 16 * 4)))
        },
        call_ensures(FakeTcpCarrier::decode_datagram, (receiver, input), read),
        call_ensures(FakeTcpCarrier::decode_datagram, (again, other), read_other),
    ensures
        read is Ok <==> read_other is Ok,
        read is Ok ==> {
            &&& read->Ok_0.sequence == read_other->Ok_0.sequence
            &&& read->Ok_0.was_syn == read_other->Ok_0.was_syn
            &&& read->Ok_0.payload@ == read_other->Ok_0.payload@
        },
        final(again)@ == final(receiver)@,
{
    reveal(carrier::datagram_in);
    let tuple = old(receiver)@.tuple;
    let prefix = Some(crate::faketcp::tuple::pseudo_sum(tuple.source.ip, tuple.destination.ip));
    if input@[0] / 16 == 4 {
        lemma_ipv4_extras(input@, other@, prefix);
    } else {
        lemma_ipv6_extras(input@, other@, prefix);
    }
}

// ---------------------------------------------------------------------------
// The segment
// ---------------------------------------------------------------------------

/// How long the IP header of a packet is that says so in its first byte.
pub open spec fn ip_length(input: Seq<u8>) -> int {
    if input[0] / 16 == 4 {
        input[0] % 16 * 4
    } else {
        40
    }
}

/// How long the TCP header of a packet is that says so in its data offset.
pub open spec fn tcp_length(input: Seq<u8>) -> int {
    input[ip_length(input) + 12] / 16 * 4
}

/// Whether two packets have one IP header, one TCP header length and one set of options.
pub open spec fn same_shape(left: Seq<u8>, right: Seq<u8>) -> bool {
    let header = ip_length(left);
    &&& left.len() == right.len()
    &&& header <= left.len()
    &&& left[0] == right[0]
    &&& forall|at: int| 0 <= at < header ==> #[trigger] left[at] == right[at]
    &&& header + 20 <= left.len() ==> {
        &&& tcp_length(left) == tcp_length(right)
        &&& forall|at: int|
            header + 20 <= at < header + tcp_length(left) && at < left.len() ==> #[trigger] left[at] == right[at]
    }
}

proof fn lemma_same_shape(left: Seq<u8>, right: Seq<u8>, prefix: int)
    requires
        prefix >= 0,
        20 <= left.len(),
        left[0] / 16 == 4 || left[0] / 16 == 6,
        left[0] / 16 == 6 ==> left.len() >= 40,
        same_shape(left, right),
        checks(prefix + left.skip(ip_length(left)).len() + total_of_words(left.skip(ip_length(left)))),
        checks(prefix + right.skip(ip_length(left)).len() + total_of_words(right.skip(ip_length(left)))),
    ensures
        decode::packet_view(left, Some(prefix)) is Ok <==> decode::packet_view(right, Some(prefix)) is Ok,
        decode::packet_view(left, Some(prefix)) is Ok ==> decode::packet_view(left, Some(prefix))->Ok_0.cookie
            == decode::packet_view(right, Some(prefix))->Ok_0.cookie,
{
    let header = ip_length(left);
    assert(left[0] == right[0]);
    let first = left.skip(header);
    let second = right.skip(header);
    lemma_total_of_words(first);
    lemma_total_of_words(second);
    checksum::lemma_word_sum_bounds(first);
    checksum::lemma_word_sum_bounds(second);
    lemma_checks(prefix + first.len() + checksum::word_sum(first));
    lemma_checks(prefix + second.len() + checksum::word_sum(second));
    assert(left.take(header) =~= right.take(header));
    if header >= 20 {
        assert(left[2] == right[2] && left[3] == right[3] && left[4] == right[4] && left[5] == right[5]);
        assert(left[6] == right[6] && left[7] == right[7] && left[9] == right[9]);
    }
    if first.len() >= 20 {
        let size = tcp_length(left);
        assert(first[12] / 16 * 4 == size && second[12] / 16 * 4 == size);
        if 20 <= size <= first.len() {
            assert(first.subrange(20, size) =~= second.subrange(20, size)) by {
                assert forall|at: int| 20 <= at < size implies first[at] == second[at] by {
                    assert(left[header + at] == right[header + at]);
                }
            }
        }
    }
}

/// Whether a segment is read does not depend on its ports, its numbers, its flags, its window,
/// its urgent pointer or its payload: of two packets with one IP header, one TCP header length
/// and one set of options, each with its checksum right, both are read or neither is.
pub proof fn law_segment_contents_do_not_decide(
    input: &[u8],
    other: &[u8],
    prefix: u32,
    read: Result<PacketView, CarrierError>,
    read_other: Result<PacketView, CarrierError>,
)
    requires
        20 <= input@.len(),
        input@[0] / 16 == 4 || input@[0] / 16 == 6 && input@.len() >= 40,
        same_shape(input@, other@),
        checks(prefix + input@.skip(ip_length(input@)).len() + total_of_words(input@.skip(ip_length(input@)))),
        checks(prefix + other@.skip(ip_length(input@)).len() + total_of_words(other@.skip(ip_length(input@)))),
        call_ensures(decode::decode_packet_view, (input, Some(prefix)), read),
        call_ensures(decode::decode_packet_view, (other, Some(prefix)), read_other),
    ensures
        read is Ok <==> read_other is Ok,
{
    lemma_same_shape(input@, other@, prefix as int);
}

proof fn lemma_segment_fields(source: IpAddress, destination: IpAddress, segment: Seq<u8>, prefix: Option<int>)
    ensures
        decode::segment_view(source, destination, segment, prefix) matches Ok(view) ==> {
            let size = segment[12] / 16 * 4;
            &&& 20 <= size <= segment.len()
            &&& view.source.port == word(segment, 0)
            &&& view.destination.port == word(segment, 2)
            &&& view.sequence == word(segment, 4) * 65536 + word(segment, 6)
            &&& view.acknowledgment == word(segment, 8) * 65536 + word(segment, 10)
            &&& view.flags.0 == segment[13]
            &&& view.window == word(segment, 14)
            &&& view.options == segment.subrange(20, size as int)
            &&& view.payload == segment.skip(size as int)
        },
{
    if decode::segment_view(source, destination, segment, prefix) is Ok {
        lemma_number(segment, 4);
        lemma_number(segment, 8);
    }
}

/// Reading a packet is reading the segment behind its IP header, between two addresses.
proof fn lemma_opened(input: Seq<u8>, prefix: Option<int>) -> (ends: (IpAddress, IpAddress))
    ensures
        decode::packet_view(input, prefix) is Ok ==> {
            &&& ip_length(input) + 20 <= input.len() <= 65535
            &&& 20 <= ip_length(input)
            &&& decode::packet_view(input, prefix) == decode::segment_view(
                ends.0,
                ends.1,
                input.skip(ip_length(input)),
                prefix,
            )
        },
{
    if input[0] / 16 == 4 {
        (IpAddress::V4(endian::be32_at(input, 12)), IpAddress::V4(endian::be32_at(input, 16)))
    } else {
        (IpAddress::V6(endian::be128_at(input, 8)), IpAddress::V6(endian::be128_at(input, 24)))
    }
}

proof fn lemma_fields(input: Seq<u8>, view: ViewModel, ends: (IpAddress, IpAddress), prefix: Option<int>)
    requires
        ip_length(input) >= 20,
        ip_length(input) + 20 <= input.len(),
        decode::segment_view(ends.0, ends.1, input.skip(ip_length(input)), prefix) == Ok::<ViewModel, CarrierError>(
            view,
        ),
    ensures
        ({
            let at = ip_length(input);
            &&& view.source.port == word(input, at)
            &&& view.destination.port == word(input, at + 2)
            &&& view.sequence == word(input, at + 4) * 65536 + word(input, at + 6)
            &&& view.acknowledgment == word(input, at + 8) * 65536 + word(input, at + 10)
            &&& view.flags.0 == input[at + 13]
            &&& view.window == word(input, at + 14)
            &&& 20 <= tcp_length(input) <= input.len() - at
            &&& view.options == input.subrange(at + 20, at + tcp_length(input))
            &&& view.payload == input.skip(at + tcp_length(input))
        }),
{
    let at = ip_length(input);
    let segment = input.skip(at);
    lemma_segment_fields(ends.0, ends.1, segment, prefix);
    let size = tcp_length(input);
    assert(segment[12] == input[at + 12]);
    assert(segment.subrange(20, size) =~= input.subrange(at + 20, at + size));
    assert(segment.skip(size) =~= input.skip(at + size));
}

proof fn lemma_number(bytes: Seq<u8>, at: int)
    requires
        0 <= at,
        at + 4 <= bytes.len(),
    ensures
        endian::be32_at(bytes, at) == word(bytes, at) * 65536 + word(bytes, at + 2),
{
    assert(0 <= bytes[at] * 0x100_0000 + bytes[at + 1] * 0x1_0000 + bytes[at + 2] * 0x100 + bytes[at + 3]
        <= 0xffff_ffff);
}

/// Where the parts of a packet stand: a packet that is read brings the ports, the numbers, the
/// flags, the window, the options and the payload from their places behind its IP header.
pub proof fn law_fields_stand_in_their_places(input: &[u8], prefix: Option<u32>, read: PacketView)
    requires
        call_ensures(decode::decode_packet_view, (input, prefix), Ok::<PacketView, CarrierError>(read)),
    ensures
        40 <= input@.len() <= 65535,
        read.source.port == word(input@, ip_length(input@)),
        read.destination.port == word(input@, ip_length(input@) + 2),
        read.sequence == word(input@, ip_length(input@) + 4) * 65536 + word(input@, ip_length(input@) + 6),
        read.acknowledgment == word(input@, ip_length(input@) + 8) * 65536 + word(input@, ip_length(input@) + 10),
        read.flags.0 == input@[ip_length(input@) + 13],
        read.window == word(input@, ip_length(input@) + 14),
        read.options@ == input@.subrange(ip_length(input@) + 20, ip_length(input@) + tcp_length(input@)),
        read.payload@ == input@.skip(ip_length(input@) + tcp_length(input@)),
        input@.len() == ip_length(input@) + tcp_length(input@) + read.payload@.len(),
{
    let ends = lemma_opened(input@, decode::given_sum(prefix));
    lemma_fields(input@, read@, ends, decode::given_sum(prefix));
}

/// An IPv4 packet that is read is whole and unfragmented, holds TCP, has the right header
/// checksum, and brings its addresses from their places.
pub proof fn law_read_ipv4_packet_is_sound(input: &[u8], prefix: Option<u32>, read: PacketView)
    requires
        call_ensures(decode::decode_packet_view, (input, prefix), Ok::<PacketView, CarrierError>(read)),
        input@[0] / 16 == 4,
    ensures
        word(input@, 2) == input@.len(),
        input@[6] % 64 == 0 && input@[7] == 0,
        input@[9] == 6,
        checks(total_of_words(input@.take(input@[0] % 16 * 4))),
        read.source.ip matches IpAddress::V4(from) && from == word(input@, 12) * 65536 + word(input@, 14),
        read.destination.ip matches IpAddress::V4(to) && to == word(input@, 16) * 65536 + word(input@, 18),
{
    let header = input@[0] % 16 * 4;
    lemma_total_of_words(input@.take(header));
    checksum::lemma_word_sum_bounds(input@.take(header));
    lemma_checks(checksum::word_sum(input@.take(header)));
    lemma_number(input@, 12);
    lemma_number(input@, 16);
    lemma_fragment(input@[6], input@[7]);
}

/// A packet of another version, one too short for any header and one too long for any packet
/// are refused, each with its own error.
pub proof fn law_other_packets_are_refused(input: &[u8], prefix: Option<u32>, read: Result<PacketView, CarrierError>)
    requires
        call_ensures(decode::decode_packet_view, (input, prefix), read),
    ensures
        input@.len() < 20 ==> read == Err::<PacketView, CarrierError>(CarrierError::PacketTooShort),
        input@.len() > 65535 ==> read == Err::<PacketView, CarrierError>(CarrierError::PacketTooLarge),
        20 <= input@.len() <= 65535 && input@[0] / 16 != 4 && input@[0] / 16 != 6 ==> read == Err::<
            PacketView,
            CarrierError,
        >(CarrierError::UnsupportedIpVersion),
{
}

/// The checksum of a TCP segment makes the sum of its words, its length and the part of the
/// addresses right, and that of an IPv4 header the sum of the header's words.
pub proof fn law_header_checksums_make_the_sums_right(
    prefix: u32,
    tcp: &[u8],
    sum: u16,
    source: u32,
    destination: u32,
    total: u16,
    header_sum: u16,
)
    requires
        prefix <= 0x10_0000,
        tcp@.len() <= 65535,
        call_ensures(encode::tcp_checksum_with_prefix, (prefix, tcp), sum),
        call_ensures(encode::ipv4_header_checksum, (source, destination, total), header_sum),
    ensures
        checks(prefix + tcp@.len() + total_of_words(tcp@) + sum),
        checks(total_of_words(encode::ipv4_header(total, source, destination, 0)) + header_sum),
{
    lemma_total_of_words(tcp@);
    checksum::lemma_word_sum_bounds(tcp@);
    let first = prefix + tcp@.len() + checksum::word_sum(tcp@);
    checksum::lemma_checksum_completes(first);
    lemma_checks(first + sum);
    let header = encode::ipv4_header(total, source, destination, 0);
    lemma_total_of_words(header);
    checksum::lemma_word_sum_bounds(header);
    checksum::lemma_checksum_completes(checksum::word_sum(header));
    lemma_checks(checksum::word_sum(header) + header_sum);
}

/// The part of the addresses in that checksum is the sum of their words and of the protocol
/// number, in either order; addresses of two families have none.
pub proof fn law_addresses_add_their_words(
    source: IpAddress,
    destination: IpAddress,
    forward: Option<u32>,
    backward: Option<u32>,
)
    requires
        call_ensures(crate::faketcp::tuple::tcp_pseudo_header_prefix, (source, destination), forward),
        call_ensures(crate::faketcp::tuple::tcp_pseudo_header_prefix, (destination, source), backward),
    ensures
        forward == backward,
        forward is Some <==> (source is V4 <==> destination is V4),
        forward matches Some(sum) ==> sum == total_of_words(crate::address::octets(source)) + total_of_words(
            crate::address::octets(destination),
        ) + 6,
{
    lemma_total_of_words(crate::address::octets(source));
    lemma_total_of_words(crate::address::octets(destination));
}

/// Folding a sum keeps what it is modulo 65535, and brings it into sixteen bits; only zero
/// folds to zero.
pub proof fn law_folding_keeps_the_remainder(sum: u32, folded: u32)
    requires
        call_ensures(checksum::fold_checksum, (sum,), folded),
    ensures
        folded <= 65535,
        folded == 0 <==> sum == 0,
        folded % 65535 == sum % 65535,
{
    if sum > 0 {
        let q = (sum - 1) / 65535;
        let r = (sum - 1) % 65535;
        assert(sum == 65535 * q + (r + 1));
        vstd::arithmetic::div_mod::lemma_mod_multiples_vanish(q as int, (r + 1) as int, 65535);
    }
}

proof fn lemma_ip_options(plain: Seq<u8>, longer: Seq<u8>, prefix: Option<int>)
    requires
        same_but_for_ip_options(plain, longer),
    ensures
        decode::packet_view(plain, prefix) is Ok ==> decode::packet_view(longer, prefix) == decode::packet_view(
            plain,
            prefix,
        ),
{
    let header = longer[0] % 16 * 4;
    let start = longer.take(header as int);
    lemma_total_of_words(start);
    checksum::lemma_word_sum_bounds(start);
    lemma_checks(checksum::word_sum(start));
    lemma_fragment(longer[6], longer[7]);
    if decode::packet_view(plain, prefix) is Ok {
        assert(decode::ipv4_sound(longer));
        assert(endian::be32_at(longer, 12) == endian::be32_at(plain, 12));
        assert(endian::be32_at(longer, 16) == endian::be32_at(plain, 16));
        assert(plain.skip(20) == longer.skip(header as int));
    }
}

/// Whether the second packet is the first, which has no IP options, with such options: its header
/// is longer, its lengths and its checksum are those of the longer packet, it is not
/// fragmented, and it carries the same segment between the same addresses.
pub open spec fn same_but_for_ip_options(plain: Seq<u8>, longer: Seq<u8>) -> bool {
    let header = longer[0] % 16 * 4;
    &&& plain.len() >= 40 && plain[0] == 0x45
    &&& longer[0] / 16 == 4
    &&& 20 <= header
    &&& longer.len() == plain.len() - 20 + header
    &&& longer.len() <= 65535
    &&& word(longer, 2) == longer.len()
    &&& longer[6] % 64 == 0 && longer[7] == 0
    &&& longer[9] == 6
    &&& forall|at: int| 12 <= at < 20 ==> #[trigger] longer[at] == plain[at]
    &&& longer.skip(header as int) == plain.skip(20)
    &&& checks(total_of_words(longer.take(header as int)))
}

/// What an IPv4 packet brings does not depend on IP options: a packet that is read without them
/// is read alike with them.
pub proof fn law_ip_options_do_not_matter(
    plain: &[u8],
    longer: &[u8],
    prefix: Option<u32>,
    read: PacketView,
    read_longer: Result<PacketView, CarrierError>,
)
    requires
        same_but_for_ip_options(plain@, longer@),
        call_ensures(decode::decode_packet_view, (plain, prefix), Ok::<PacketView, CarrierError>(read)),
        call_ensures(decode::decode_packet_view, (longer, prefix), read_longer),
    ensures
        read_longer matches Ok(found) && found@ == read@,
{
    lemma_ip_options(plain@, longer@, decode::given_sum(prefix));
}

} // verus!
