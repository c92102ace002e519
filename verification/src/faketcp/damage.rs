//! What holds of packets that were damaged on their way.
use crate::address::IpAddress;
use crate::endian;
use crate::faketcp::checksum;
use crate::faketcp::decode;
use crate::faketcp::encode;
use crate::faketcp::packet;
use crate::faketcp::tuple;
use vstd::prelude::*;

verus! {

proof fn lemma_header_damage(input: Seq<u8>, at: int, byte: u8)
    requires
        input.len() >= 20,
        decode::ipv4_sound(input),
        0 < at < input[0] % 16 * 4,
        byte != input[at],
    ensures
        !decode::ipv4_sound(input.update(at, byte)),
{
    let header = input[0] % 16 * 4;
    let damaged = input.update(at, byte);
    let start = input.take(header as int);
    assert(damaged.take(header as int) =~= start.update(at, byte));
    checksum::lemma_word_sum_bounds(start);
    checksum::lemma_word_sum_bounds(start.update(at, byte));
    checksum::lemma_word_sum_update(start, at, byte);
    checksum::lemma_changed_byte_shows(checksum::word_sum(start), at, input[at], byte);
}

proof fn lemma_segment_damage(prefix: int, input: Seq<u8>, at: int, byte: u8)
    requires
        prefix >= 0,
        encode::tcp_sum(prefix, input) == 0,
        0 <= at < input.len(),
        byte != input[at],
    ensures
        encode::tcp_sum(prefix, input.update(at, byte)) != 0,
{
    checksum::lemma_word_sum_bounds(input);
    checksum::lemma_word_sum_bounds(input.update(at, byte));
    checksum::lemma_word_sum_update(input, at, byte);
    checksum::lemma_changed_byte_shows(prefix + input.len() + checksum::word_sum(input), at, input[at], byte);
}

/// An IPv4 packet of which one byte was changed is refused, whichever byte that is: the
/// checksum of the IPv4 header or that of the TCP segment no longer holds.
///
/// The first byte is left out: it says where the parts of the packet begin, so a change
/// there moves what the checksums are taken over.
pub proof fn law_changed_byte_is_refused(input: Seq<u8>, at: int, byte: u8)
    requires
        packet::packet_in(input) is Ok,
        input[0] / 16 == 4,
        0 < at < input.len(),
        byte != input[at],
    ensures
        packet::packet_in(input.update(at, byte)) is Err,
{
    let header = input[0] % 16 * 4;
    let damaged = input.update(at, byte);
    assert(damaged[0] == input[0]);
    if at < header {
        lemma_header_damage(input, at, byte);
    } else {
        let segment = input.skip(header as int);
        assert(damaged.skip(header as int) =~= segment.update(at - header, byte));
        let source = IpAddress::V4(endian::be32_at(input, 12));
        let destination = IpAddress::V4(endian::be32_at(input, 16));
        assert(endian::be32_at(damaged, 12) == endian::be32_at(input, 12));
        assert(endian::be32_at(damaged, 16) == endian::be32_at(input, 16));
        tuple::lemma_pseudo_sum_bounds(source, destination);
        lemma_segment_damage(tuple::pseudo_sum(source, destination), segment, at - header, byte);
    }
}

/// The checksum part of two IPv6 addresses is the word sum of their bytes in the packet.
proof fn lemma_ipv6_prefix(input: Seq<u8>)
    requires
        input.len() >= 40,
    ensures
        tuple::pseudo_sum(IpAddress::V6(endian::be128_at(input, 8)), IpAddress::V6(endian::be128_at(input, 24)))
            == checksum::word_sum(input.subrange(8, 40)) + 6,
{
    endian::lemma_be128_read(input, 8);
    endian::lemma_be128_read(input, 24);
    assert(input.subrange(8, 40) =~= input.subrange(8, 24) + input.subrange(24, 40));
    checksum::lemma_word_sum_concat(input.subrange(8, 24), input.subrange(24, 40));
}

proof fn lemma_ipv6_damage(input: Seq<u8>, at: int, byte: u8)
    requires
        input.len() >= 40,
        decode::ipv6_sound(input),
        4 <= at <= 6,
        byte != input[at],
    ensures
        !decode::ipv6_sound(input.update(at, byte)),
{
    let damaged = input.update(at, byte);
    assert(damaged[4] == (if at == 4 {
        byte
    } else {
        input[4]
    }));
    assert(damaged[5] == (if at == 5 {
        byte
    } else {
        input[5]
    }));
}

/// The sum that the checksum of an IPv6 packet is taken of.
spec fn ipv6_sum(input: Seq<u8>) -> int {
    checksum::word_sum(input.subrange(8, 40)) + 6 + input.skip(40).len() + checksum::word_sum(input.skip(40))
}

/// An IPv6 packet is read only where its header is sound and its checksum is right.
proof fn lemma_ipv6_read(input: Seq<u8>)
    requires
        input.len() > 0,
        input[0] / 16 == 6,
        packet::packet_in(input) is Ok,
    ensures
        input.len() >= 40,
        decode::ipv6_sound(input),
        checksum::complement(ipv6_sum(input)) == 0,
{
    lemma_ipv6_prefix(input);
}

proof fn lemma_ipv6_sum_damage(input: Seq<u8>, at: int, byte: u8)
    requires
        8 <= at < input.len(),
        40 <= input.len(),
        byte != input[at],
        checksum::complement(ipv6_sum(input)) == 0,
    ensures
        checksum::complement(ipv6_sum(input.update(at, byte))) != 0,
{
    let damaged = input.update(at, byte);
    let addresses = input.subrange(8, 40);
    let segment = input.skip(40);
    checksum::lemma_word_sum_bounds(addresses);
    checksum::lemma_word_sum_bounds(segment);
    checksum::lemma_word_sum_bounds(damaged.subrange(8, 40));
    checksum::lemma_word_sum_bounds(damaged.skip(40));
    if at < 40 {
        assert(damaged.skip(40) =~= segment);
        assert(damaged.subrange(8, 40) =~= addresses.update(at - 8, byte));
        checksum::lemma_word_sum_update(addresses, at - 8, byte);
        checksum::lemma_changed_byte_shows(ipv6_sum(input), at - 8, input[at], byte);
    } else {
        assert(damaged.subrange(8, 40) =~= addresses);
        assert(damaged.skip(40) =~= segment.update(at - 40, byte));
        checksum::lemma_word_sum_update(segment, at - 40, byte);
        checksum::lemma_changed_byte_shows(ipv6_sum(input), at - 40, input[at], byte);
    }
}

/// An IPv6 packet of which one byte was changed is refused, where a length, the protocol or
/// the checksum of the segment tells of that byte.
///
/// The version, the traffic class, the flow label and the hop limit are left out: nothing in
/// an IPv6 packet covers them.
pub proof fn law_changed_ipv6_byte_is_refused(input: Seq<u8>, at: int, byte: u8)
    requires
        packet::packet_in(input) is Ok,
        input[0] / 16 == 6,
        4 <= at < input.len(),
        at != 7,
        byte != input[at],
    ensures
        packet::packet_in(input.update(at, byte)) is Err,
{
    let damaged = input.update(at, byte);
    lemma_ipv6_read(input);
    if packet::packet_in(damaged) is Ok {
        assert(damaged[0] == input[0]);
        lemma_ipv6_read(damaged);
        if at <= 6 {
            lemma_ipv6_damage(input, at, byte);
        } else {
            lemma_ipv6_sum_damage(input, at, byte);
        }
    }
}

/// A byte with one of its bits flipped.
pub open spec fn flipped(byte: u8, bit: int) -> u8 {
    byte ^ (1u8 << (bit as u8))
}

/// An IPv4 packet with exactly one bit flipped, anywhere but in its first byte, is refused.
pub proof fn law_flipped_bit_is_refused(input: Seq<u8>, at: int, bit: int)
    requires
        packet::packet_in(input) is Ok,
        input[0] / 16 == 4,
        0 < at < input.len(),
        0 <= bit < 8,
    ensures
        packet::packet_in(input.update(at, flipped(input[at], bit))) is Err,
{
    let byte = input[at];
    let place = bit as u8;
    assert(byte ^ (1u8 << place) != byte) by (bit_vector)
        requires
            place < 8,
    ;
    law_changed_byte_is_refused(input, at, flipped(byte, bit));
}

}
