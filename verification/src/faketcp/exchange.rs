//! What one end of a path sends and the other receives, and what vouches for it.
use crate::address::{IpAddress, SocketAddress};
use crate::crypto;
use crate::endian;
use crate::faketcp::carrier;
use crate::faketcp::carrier::{BorrowedDecodedDatagram, CarrierModel, DecodedDatagram, FakeTcpCarrier};
use crate::faketcp::cookie;
use crate::faketcp::decode;
use crate::faketcp::encode;
use crate::faketcp::error::CarrierError;
use crate::faketcp::flags::TcpFlags;
use crate::faketcp::laws;
use crate::faketcp::options;
use crate::faketcp::packet;
use crate::faketcp::packet::FakeTcpPacket;
use crate::faketcp::sending;
use crate::faketcp::sending::has_syn;
use crate::faketcp::tuple;
use crate::faketcp::tuple::{CarrierDirection, FourTuple};
use vstd::prelude::*;

verus! {

// ---------------------------------------------------------------------------
// Datagrams
// ---------------------------------------------------------------------------

/// Whether two carriers are the ends of one path: each sends where the other receives, neither
/// address has flow information or a scope, and both have one cookie.
pub open spec fn facing(sender: CarrierModel, receiver: CarrierModel) -> bool {
    &&& receiver.tuple.source == sender.tuple.destination
    &&& receiver.tuple.destination == sender.tuple.source
    &&& sender.tuple.source.flow_info == 0 && sender.tuple.source.scope_id == 0
    &&& sender.tuple.destination.flow_info == 0 && sender.tuple.destination.scope_id == 0
    &&& receiver.cookie == sender.cookie
}

/// What one end sends is what the other receives: the whole datagram, from one packet, with
/// the sender's number, where the packet fits the receiver's MTU.
pub proof fn law_sent_datagram_is_received(
    sender: &mut FakeTcpCarrier,
    datagram: &[u8],
    wire: Vec<u8>,
    input: &[u8],
    receiver: &mut FakeTcpCarrier,
    received: Result<DecodedDatagram, CarrierError>,
)
    requires
        old(sender).wf(),
        facing(old(sender)@, old(receiver)@),
        datagram@.len() > 0,
        call_ensures(
            FakeTcpCarrier::encode_datagram,
            (sender, datagram),
            Ok::<Vec<u8>, CarrierError>(wire),
        ),
        input@ == wire@,
        wire@.len() <= old(receiver)@.outer_mtu,
        call_ensures(FakeTcpCarrier::decode_datagram, (receiver, input), received),
    ensures
        received matches Ok(found) && {
            &&& found.payload@ == datagram@
            &&& found.sequence == old(sender)@.send_sequence
            &&& !found.was_syn
        },
{
    old(sender).lemma_wf();
    sending::lemma_bits();
    let bits = TcpFlags(0x18);
    carrier::lemma_carrier_packet_length(old(sender)@, bits, datagram@);
    laws::law_peer_receives_what_was_sent(old(sender)@, old(receiver)@, bits, datagram@);
}

/// The same of the first packet of either end, where both have a cookie.
pub proof fn law_first_datagram_is_received(
    client: &mut FakeTcpCarrier,
    server: &mut FakeTcpCarrier,
    datagram: &[u8],
    wire: Vec<u8>,
    answer: Vec<u8>,
    input: &[u8],
    reply: &[u8],
    receiver: &mut FakeTcpCarrier,
    opener: &mut FakeTcpCarrier,
    received: Result<DecodedDatagram, CarrierError>,
    answered: Result<DecodedDatagram, CarrierError>,
)
    requires
        old(client).wf(),
        old(server).wf(),
        facing(old(client)@, old(receiver)@),
        facing(old(server)@, old(opener)@),
        datagram@.len() > 0,
        call_ensures(FakeTcpCarrier::encode_syn, (client, datagram), Ok::<Vec<u8>, CarrierError>(wire)),
        call_ensures(FakeTcpCarrier::encode_syn_ack, (server, datagram), Ok::<Vec<u8>, CarrierError>(answer)),
        input@ == wire@,
        reply@ == answer@,
        wire@.len() <= old(receiver)@.outer_mtu,
        answer@.len() <= old(opener)@.outer_mtu,
        call_ensures(FakeTcpCarrier::decode_datagram, (receiver, input), received),
        call_ensures(FakeTcpCarrier::decode_datagram, (opener, reply), answered),
    ensures
        received matches Ok(found) && found.payload@ == datagram@ && found.was_syn
            && found.sequence == old(client)@.send_sequence,
        answered matches Ok(found) && found.payload@ == datagram@ && found.was_syn
            && found.sequence == old(server)@.send_sequence,
{
    old(client).lemma_wf();
    old(server).lemma_wf();
    sending::lemma_bits();
    carrier::lemma_carrier_packet_length(old(client)@, TcpFlags(0x02), datagram@);
    laws::law_peer_receives_what_was_sent(old(client)@, old(receiver)@, TcpFlags(0x02), datagram@);
    carrier::lemma_carrier_packet_length(old(server)@, TcpFlags(0x12), datagram@);
    laws::law_peer_receives_what_was_sent(old(server)@, old(opener)@, TcpFlags(0x12), datagram@);
}

/// A datagram that is borrowed from its packet is the one that is copied out of it.
pub proof fn law_borrowed_datagram_is_the_copied_one(
    receiver: &mut FakeTcpCarrier,
    input: &[u8],
    copied: Result<DecodedDatagram, CarrierError>,
    again: &mut FakeTcpCarrier,
    borrowed: Result<BorrowedDecodedDatagram, CarrierError>,
)
    requires
        old(again)@ == old(receiver)@,
        call_ensures(FakeTcpCarrier::decode_datagram, (receiver, input), copied),
        call_ensures(FakeTcpCarrier::decode_datagram_borrowed, (again, input), borrowed),
    ensures
        copied is Ok <==> borrowed is Ok,
        copied is Ok ==> copied->Ok_0.payload@ == borrowed->Ok_0.payload@ && copied->Ok_0.sequence
            == borrowed->Ok_0.sequence && copied->Ok_0.was_syn == borrowed->Ok_0.was_syn,
        copied is Err ==> copied->Err_0 == borrowed->Err_0,
        final(receiver)@ == final(again)@,
{
}

/// A packet that is read is a datagram for a carrier exactly where it fits the MTU, runs from
/// the carrier's peer to the carrier, is not empty and, where it is a first one, has the
/// carrier's own cookie; each refusal says why, and changes nothing.
pub proof fn law_packet_of_the_peer_is_a_datagram(
    receiver: &mut FakeTcpCarrier,
    input: &[u8],
    result: Result<DecodedDatagram, CarrierError>,
)
    requires
        call_ensures(FakeTcpCarrier::decode_datagram, (receiver, input), result),
    ensures
        ({
            let state = old(receiver)@;
            let prefix = tuple::pseudo_sum(state.tuple.source.ip, state.tuple.destination.ip);
            let read = decode::packet_view(input@, Some(prefix));
            let view = read->Ok_0;
            let path = view.source == state.tuple.destination && view.destination == state.tuple.source;
            let first = has_syn(view.flags.0);
            &&& result is Ok <==> {
                &&& input@.len() <= state.outer_mtu
                &&& read is Ok
                &&& path
                &&& view.payload.len() > 0
                &&& first ==> state.cookie is Some && view.cookie == state.cookie
            }
            &&& input@.len() > state.outer_mtu ==> result == Err::<DecodedDatagram, CarrierError>(
                CarrierError::PacketTooLarge,
            )
            &&& input@.len() <= state.outer_mtu && read is Ok && !path
                ==> result == Err::<DecodedDatagram, CarrierError>(
                CarrierError::WrongTuple,
            )
            &&& input@.len() <= state.outer_mtu && read is Ok && path && view.payload.len() > 0 && first
                && state.cookie is Some && view.cookie != state.cookie
                    ==> result == Err::<DecodedDatagram, CarrierError>(
                CarrierError::SynCookieRejected,
            )
            &&& result matches Ok(found) ==> found.payload@ == view.payload && found.sequence == view.sequence
                && found.was_syn == first
        }),
        result is Err ==> final(receiver)@ == old(receiver)@,
{
    reveal(carrier::datagram_in);
    let state = old(receiver)@;
    let prefix = tuple::pseudo_sum(state.tuple.source.ip, state.tuple.destination.ip);
    let bits = decode::packet_view(input@, Some(prefix))->Ok_0.flags.0;
    lemma_syn_bit(bits);
}

proof fn lemma_syn_bit(bits: u8)
    ensures
        TcpFlags(bits).has(TcpFlags(TcpFlags::SYN)) == has_syn(bits),
{
    assert((bits & 0x02 == 0x02) == (bits / 2 % 2 == 1)) by (bit_vector);
}

/// Flags are bits: SYN is the second, RST the third and ACK the fifth; joining two sets has the
/// bits of both.
pub proof fn law_flags_are_bits(
    flags: TcpFlags,
    number: u8,
    syn: bool,
    ack: bool,
    rst: bool,
    empty: TcpFlags,
)
    requires
        call_ensures(TcpFlags::bits, (flags,), number),
        call_ensures(TcpFlags::is_syn, (flags,), syn),
        call_ensures(TcpFlags::is_ack, (flags,), ack),
        call_ensures(TcpFlags::is_rst, (flags,), rst),
        call_ensures(TcpFlags::empty, (), empty),
    ensures
        syn <==> number / 2 % 2 == 1,
        rst <==> number / 4 % 2 == 1,
        ack <==> number / 16 % 2 == 1,
        empty.0 == 0,
{
    let bits = flags.0;
    assert((bits & 0x02 == 0x02) == (bits / 2 % 2 == 1) && (bits & 0x04 == 0x04) == (bits / 4 % 2 == 1) && (bits & 0x10
        == 0x10) == (bits / 16 % 2 == 1)) by (bit_vector);
}

// ---------------------------------------------------------------------------
// Packets
// ---------------------------------------------------------------------------

/// A packet is written exactly where its addresses are of one family, its ports are not zero,
/// its cookie has at most sixteen bytes, and it is no longer than 65535 bytes; it then reads
/// back as it was.
pub proof fn law_written_packet_reads_back(
    given: FakeTcpPacket,
    result: Result<Vec<u8>, CarrierError>,
    input: &[u8],
    read: Result<FakeTcpPacket, CarrierError>,
)
    requires
        options::zero_filled(given@.options),
        given@.source.flow_info == 0 && given@.source.scope_id == 0,
        given@.destination.flow_info == 0 && given@.destination.scope_id == 0,
        call_ensures(FakeTcpPacket::encode, (&given,), result),
        result is Ok ==> input@ == result->Ok_0@,
        call_ensures(FakeTcpPacket::decode, (input,), read),
    ensures
        result is Ok <==> {
            &&& (given@.source.ip is V4 <==> given@.destination.ip is V4)
            &&& given@.source.port != 0 && given@.destination.port != 0
            &&& given@.options.cookie matches Some((bytes, length)) ==> length <= 16
            &&& (if given@.source.ip is V4 {
                20int
            } else {
                40
            }) + 20 + options::option_bytes(given@.options).len() + given@.payload.len() <= 65535
        },
        result is Ok ==> (read matches Ok(found) && found@ == given@),
{
    if result is Ok {
        packet::law_packet_round_trip(given@);
    }
}

/// What a written packet has in its IP header: version and length, the total length, no
/// fragments, a time to live of 64, and TCP.
pub proof fn law_ip_header_of_a_written_packet(given: FakeTcpPacket, bytes: Vec<u8>)
    requires
        options::zero_filled(given@.options),
        call_ensures(FakeTcpPacket::encode, (&given,), Ok::<Vec<u8>, CarrierError>(bytes)),
    ensures
        given@.source.ip is V4 ==> {
            &&& bytes@[0] == 0x45 && bytes@[1] == 0
            &&& bytes@[2] * 256 + bytes@[3] == bytes@.len()
            &&& bytes@[6] == 0x40 && bytes@[7] == 0
            &&& bytes@[8] == 64
            &&& bytes@[9] == 6
        },
        given@.source.ip is V6 ==> {
            &&& bytes@[0] == 0x60
            &&& bytes@[4] * 256 + bytes@[5] + 40 == bytes@.len()
            &&& bytes@[6] == 6
            &&& bytes@[7] == 64
        },
{
    let segment = packet::segment_in(given@);
    let prefix = tuple::pseudo_sum(given@.source.ip, given@.destination.ip);
    packet::lemma_packet_length(given@.source, given@.destination, segment, prefix);
    let length = encode::segment_length(segment);
    endian::lemma_be16((20 + length) as u16);
    endian::lemma_be16(length as u16);
    let header = encode::ip_header(given@.source.ip, given@.destination.ip, length);
    match (given@.source.ip, given@.destination.ip) {
        (IpAddress::V4(from), IpAddress::V4(to)) => {
            assert(header.len() == 20);
            assert forall|i: int| 0 <= i < 20 implies bytes@[i] == header[i] by {}
            assert(header[2] == endian::be16((20 + length) as u16)[0]
                && header[3] == endian::be16((20 + length) as u16)[1]);
        },
        (IpAddress::V6(from), IpAddress::V6(to)) => {
            assert(header.len() == 40);
            assert forall|i: int| 0 <= i < 40 implies bytes@[i] == header[i] by {}
            assert(header[4] == endian::be16(length as u16)[0] && header[5] == endian::be16(length as u16)[1]);
        },
        _ => {},
    }
}

/// Writing a packet into a buffer writes the same bytes at its front, and needs no more room
/// than they take.
pub proof fn law_packet_is_written_into_a_buffer(
    given: FakeTcpPacket,
    bytes: Result<Vec<u8>, CarrierError>,
    output: &mut [u8],
    written: Result<usize, CarrierError>,
)
    requires
        call_ensures(FakeTcpPacket::encode, (&given,), bytes),
        call_ensures(FakeTcpPacket::encode_into, (&given, output), written),
    ensures
        written is Ok <==> bytes is Ok && bytes->Ok_0@.len() <= old(output)@.len(),
        written matches Ok(length) ==> length == bytes->Ok_0@.len()
            && final(output)@.take(length as int) == bytes->Ok_0@
            && final(output)@.skip(length as int) == old(output)@.skip(length as int),
        written is Err ==> final(output)@ == old(output)@,
{
    let segment = packet::segment_in(given@);
    let prefix = tuple::pseudo_sum(given@.source.ip, given@.destination.ip);
    if packet::refusal_of(given@) is None {
        packet::lemma_packet_length(given@.source, given@.destination, segment, prefix);
    }
    if let Ok(length) = written {
        assert(final(output)@.take(length as int) =~= packet::bytes_of(given@));
        assert(final(output)@.skip(length as int) =~= old(output)@.skip(length as int));
    }
}

/// A path reversed runs the other way, and reversed again the first; it is usable both ways or
/// neither.
pub proof fn law_reversed_path_runs_the_other_way(
    given: FourTuple,
    other: FourTuple,
    back: FourTuple,
    valid: Result<(), CarrierError>,
    valid_other: Result<(), CarrierError>,
)
    requires
        call_ensures(FourTuple::reverse, (given,), other),
        call_ensures(FourTuple::reverse, (other,), back),
        call_ensures(FourTuple::validate, (given,), valid),
        call_ensures(FourTuple::validate, (other,), valid_other),
    ensures
        other.source == given.destination && other.destination == given.source,
        back == given,
        valid is Ok <==> valid_other is Ok,
        valid is Ok <==> {
            &&& (given.source.ip is V4 <==> given.destination.ip is V4)
            &&& given.source.ip != IpAddress::V4(0) && given.source.ip != IpAddress::V6(0)
            &&& given.destination.ip != IpAddress::V4(0) && given.destination.ip != IpAddress::V6(0)
            &&& given.source.port != 0 && given.destination.port != 0
        },
{
}

// ---------------------------------------------------------------------------
// Cookies and numbers
// ---------------------------------------------------------------------------

proof fn lemma_same_parts(
    kind: u8,
    left: (Seq<u8>, Seq<u8>, Seq<u8>),
    right: (Seq<u8>, Seq<u8>, Seq<u8>),
)
    requires
        left.0.len() == right.0.len(),
        left.1.len() == right.1.len(),
        ((seq![kind] + left.0) + left.1) + left.2 == ((seq![kind] + right.0) + right.1) + right.2,
    ensures
        left.0 == right.0,
        left.1 == right.1,
        left.2 == right.2,
{
    let a = ((seq![kind] + left.0) + left.1) + left.2;
    let b = ((seq![kind] + right.0) + right.1) + right.2;
    let first = 1 + left.0.len() as int;
    let second = first + left.1.len() as int;
    assert(a.subrange(1, first) =~= left.0);
    assert(b.subrange(1, first) =~= right.0);
    assert(a.subrange(first, second) =~= left.1);
    assert(b.subrange(first, second) =~= right.1);
    assert(a.skip(second) =~= left.2);
    assert(b.skip(second) =~= right.2);
}

proof fn lemma_octets(left: IpAddress, right: IpAddress)
    requires
        left is V4 <==> right is V4,
    ensures
        crate::address::octets(left).len() == crate::address::octets(right).len(),
        crate::address::octets(left) == crate::address::octets(right) ==> left == right,
{
    match (left, right) {
        (IpAddress::V4(x), IpAddress::V4(y)) => {
            endian::lemma_be32(x);
            endian::lemma_be32(y);
        },
        (IpAddress::V6(x), IpAddress::V6(y)) => {
            endian::lemma_be128(x);
            endian::lemma_be128(y);
        },
        _ => {},
    }
}

proof fn lemma_address_bytes(left: SocketAddress, right: SocketAddress, rest: Seq<u8>, other: Seq<u8>)
    requires
        cookie::address_bytes(left) + rest == cookie::address_bytes(right) + other,
    ensures
        left.ip == right.ip,
        left.port == right.port,
        rest == other,
{
    let a = cookie::address_bytes(left) + rest;
    let b = cookie::address_bytes(right) + other;
    assert(a[0] == b[0]);
    let kind = a[0];
    lemma_octets(left.ip, right.ip);
    lemma_same_parts(
        kind,
        (crate::address::octets(left.ip), endian::be16(left.port), rest),
        (crate::address::octets(right.ip), endian::be16(right.port), other),
    );
    endian::lemma_be16(left.port);
    endian::lemma_be16(right.port);
}

/// Whether two paths run between the same two ends.
pub open spec fn same_ends(left: FourTuple, right: FourTuple) -> bool {
    &&& left.source.ip == right.source.ip && left.source.port == right.source.port
    &&& left.destination.ip == right.destination.ip && left.destination.port == right.destination.port
}

/// What a cookie is made of says which ends and which epoch it is for: for other ends, or for
/// another epoch, it is made of something else.
pub proof fn law_cookie_is_for_its_ends_and_epoch(given: FourTuple, epoch: u64, other: FourTuple, later: u64)
    requires
        cookie::cookie_message(given, epoch) == cookie::cookie_message(other, later),
    ensures
        epoch == later,
        same_ends(given, other) || same_ends(given, tuple::reversed(other)),
{
    let a = cookie::ordered(given);
    let b = cookie::ordered(other);
    let rest = cookie::address_bytes(a.destination) + endian::be64(epoch);
    let other_rest = cookie::address_bytes(b.destination) + endian::be64(later);
    assert(cookie::cookie_message(given, epoch) =~= cookie::address_bytes(a.source) + rest);
    assert(cookie::cookie_message(other, later) =~= cookie::address_bytes(b.source) + other_rest);
    lemma_address_bytes(a.source, b.source, rest, other_rest);
    lemma_address_bytes(a.destination, b.destination, endian::be64(epoch), endian::be64(later));
    endian::lemma_be64(epoch);
    endian::lemma_be64(later);
}

/// A cookie that was issued for a path and an epoch is valid for both ends of that path in that
/// epoch; anything else is not, and every cookie has sixteen bytes of the code over what it is
/// made of.
pub proof fn law_issued_cookie_is_valid_at_both_ends(
    secret: &[u8],
    given: FourTuple,
    epoch: u64,
    issued: [u8; 16],
    presented: &[u8],
    valid: bool,
    other: FourTuple,
    valid_other: bool,
    cookie_path: FourTuple,
    other_path: FourTuple,
)
    requires
        secret@.len() <= crypto::MAX_DIGEST_INPUT,
        other == tuple::reversed(given),
        given.source.ip != given.destination.ip || given.source.port != given.destination.port,
        call_ensures(cookie::issue_syn_cookie, (secret, given, epoch), issued),
        call_ensures(cookie::verify_syn_cookie, (secret, given, epoch, presented), valid),
        call_ensures(cookie::verify_syn_cookie, (secret, other, epoch, presented), valid_other),
        call_ensures(cookie::cookie_tuple, (given,), cookie_path),
        call_ensures(cookie::cookie_tuple, (other,), other_path),
    ensures
        valid <==> presented@ == issued@,
        valid_other <==> valid,
        cookie_path == other_path,
        issued@ == crypto::hmac_sha256_of(secret@, cookie::cookie_message(given, epoch)).take(16),
{
}

/// What a first number is made of says which ends it is for, in which direction; the random
/// part covers it, so that two random parts give two numbers.
pub proof fn law_first_number_is_for_its_direction(
    random: u32,
    given: FourTuple,
    direction: CarrierDirection,
    sequence: u32,
    random_then: u32,
    sequence_then: u32,
    other: FourTuple,
    other_direction: CarrierDirection,
)
    requires
        call_ensures(cookie::sequence_from, (random, given, direction), sequence),
        call_ensures(cookie::sequence_from, (random_then, given, direction), sequence_then),
    ensures
        sequence == sequence_then <==> random == random_then,
        cookie::sequence_message(given, direction) == cookie::sequence_message(other, other_direction) ==> same_ends(
            given,
            other,
        ) && direction == other_direction,
        sequence ^ random == crypto::crc32c_of(cookie::sequence_message(given, direction)),
{
    let code = crypto::crc32c_of(cookie::sequence_message(given, direction));
    assert((random ^ code == random_then ^ code) == (random == random_then) && (random ^ code) ^ random == code)
        by (bit_vector);
    if cookie::sequence_message(given, direction) == cookie::sequence_message(other, other_direction) {
        let way = cookie::sequence_message(given, direction).last();
        let other_way = cookie::sequence_message(other, other_direction).last();
        let rest = cookie::address_bytes(given.destination) + seq![way];
        let other_rest = cookie::address_bytes(other.destination) + seq![other_way];
        assert(cookie::sequence_message(given, direction) =~= cookie::address_bytes(given.source) + rest);
        assert(cookie::sequence_message(other, other_direction) =~= cookie::address_bytes(other.source) + other_rest);
        lemma_address_bytes(given.source, other.source, rest, other_rest);
        lemma_address_bytes(given.destination, other.destination, seq![way], seq![other_way]);
    }
}

// ---------------------------------------------------------------------------
// Options
// ---------------------------------------------------------------------------

/// An option of its own with a kind, a length and a value.
pub open spec fn option_of(kind: u8, value: Seq<u8>) -> Seq<u8> {
    seq![kind, (2 + value.len()) as u8] + value
}

/// Options are read one after the other: an option that is not known, or whose value has not the
/// length of its kind, is passed over; padding is skipped, and an end mark ends them.
pub proof fn law_options_are_read_one_by_one(
    kind: u8,
    value: Seq<u8>,
    rest: Seq<u8>,
    before: options::OptionsModel,
    found: Option<Seq<u8>>,
)
    requires
        kind > 1,
        value.len() <= 253,
    ensures
        options::parsed(seq![1u8] + rest, before) == options::parsed(rest, before),
        options::parsed(seq![0u8] + rest, before) == Ok::<options::OptionsModel, CarrierError>(before),
        kind != 2 && kind != 3 && kind != 4 && kind != 8 && kind != 34 ==> options::parsed(
            option_of(kind, value) + rest,
            before,
        ) == options::parsed(rest, before),
        kind == 2 && value.len() == 2 ==> options::parsed(option_of(kind, value) + rest, before) == options::parsed(
            rest,
            (options::OptionsModel { mss: Some((value[0] * 256 + value[1]) as u16), ..before }),
        ),
        kind == 3 && value.len() == 1 ==> options::parsed(option_of(kind, value) + rest, before) == options::parsed(
            rest,
            (options::OptionsModel { window_scale: Some(value[0]), ..before }),
        ),
        kind == 4 && value.len() == 0 ==> options::parsed(option_of(kind, value) + rest, before) == options::parsed(
            rest,
            (options::OptionsModel { sack_permitted: true, ..before }),
        ),
        kind == 34 && value.len() <= 16 ==> options::cookie_in(option_of(kind, value) + rest, found)
            == options::cookie_in(rest, Some(value)),
        kind != 34 ==> options::cookie_in(option_of(kind, value) + rest, found) == options::cookie_in(rest, found),
        options::cookie_in(seq![1u8] + rest, found) == options::cookie_in(rest, found),
{
    let padded = seq![1u8] + rest;
    assert(padded.skip(1) =~= rest);
    let input = option_of(kind, value) + rest;
    let end = 2 + value.len() as int;
    assert(input[0] == kind && input[1] == end);
    assert(input.skip(end) =~= rest);
    assert(input.subrange(2, end) =~= value);
}

/// An option that is cut off, or whose length does not even cover itself, is refused.
pub proof fn law_cut_options_are_refused(input: Seq<u8>, before: options::OptionsModel, found: Option<Seq<u8>>)
    requires
        input.len() > 0,
        input[0] > 1,
        input.len() == 1 || input[1] < 2 || input[1] > input.len(),
    ensures
        options::parsed(input, before) == Err::<options::OptionsModel, CarrierError>(CarrierError::InvalidTcpOption),
        options::cookie_in(input, found) == Err::<Option<Seq<u8>>, CarrierError>(CarrierError::InvalidTcpOption),
{
}

// ---------------------------------------------------------------------------
// What is told
// ---------------------------------------------------------------------------

/// A packet tells its own addresses, numbers, flags, window and payload.
pub proof fn law_packet_tells_its_parts(
    given: FakeTcpPacket,
    source: SocketAddress,
    destination: SocketAddress,
    sequence: u32,
    acknowledgment: u32,
    flags: TcpFlags,
    window: u16,
    payload: &[u8],
)
    requires
        call_ensures(FakeTcpPacket::source, (&given,), source),
        call_ensures(FakeTcpPacket::destination, (&given,), destination),
        call_ensures(FakeTcpPacket::sequence, (&given,), sequence),
        call_ensures(FakeTcpPacket::acknowledgment, (&given,), acknowledgment),
        call_ensures(FakeTcpPacket::flags, (&given,), flags),
        call_ensures(FakeTcpPacket::window, (&given,), window),
        call_ensures(FakeTcpPacket::payload, (&given,), payload),
    ensures
        source == given.source && destination == given.destination,
        sequence == given.sequence && acknowledgment == given.acknowledgment,
        flags == given.flags && window == given.window,
        payload@ == given.payload@,
{
}

/// A datagram tells its number, its payload, and whether it came with the first packet.
pub proof fn law_datagram_tells_its_parts(
    owned: DecodedDatagram,
    sequence: u32,
    was_syn: bool,
    payload: &[u8],
    carrier: &FakeTcpCarrier,
    sent: bool,
    path: FourTuple,
)
    requires
        call_ensures(DecodedDatagram::sequence, (&owned,), sequence),
        call_ensures(DecodedDatagram::was_syn, (&owned,), was_syn),
        call_ensures(DecodedDatagram::payload, (&owned,), payload),
        call_ensures(FakeTcpCarrier::sent_syn, (carrier,), sent),
        call_ensures(FakeTcpCarrier::tuple, (carrier,), path),
    ensures
        sequence == owned.sequence && was_syn == owned.was_syn && payload@ == owned.payload@,
        sent == carrier@.sent_syn,
        path == carrier@.tuple,
{
}

/// Options tell what they hold; a cookie of more than sixteen bytes is not told.
pub proof fn law_options_tell_what_they_hold(
    given: options::TcpOptions,
    mss: Option<u16>,
    sack: bool,
    times: Option<(u32, u32)>,
    scale: Option<u8>,
    held: Option<&[u8]>,
)
    requires
        call_ensures(options::TcpOptions::mss, (&given,), mss),
        call_ensures(options::TcpOptions::sack_permitted, (&given,), sack),
        call_ensures(options::TcpOptions::timestamps, (&given,), times),
        call_ensures(options::TcpOptions::window_scale, (&given,), scale),
        call_ensures(options::TcpOptions::fast_open_cookie, (&given,), held),
    ensures
        mss == given.mss && sack == given.sack_permitted && times == given.timestamps && scale == given.window_scale,
        held is Some <==> (given.fast_open_cookie matches Some(cookie) && cookie.length <= 16),
        held matches Some(bytes) ==> (given.fast_open_cookie matches Some(cookie) && bytes@ == cookie.bytes@.take(
            cookie.length as int,
        )),
{
}

/// The two carriers of a pair are for one path, one MTU and one segment size, and have sent
/// nothing.
pub proof fn law_paired_carriers_are_alike(
    given: FourTuple,
    direction: CarrierDirection,
    syn_data: tuple::SynDataMode,
    syn_mss: u16,
    outer_mtu: u16,
    inbound: FakeTcpCarrier,
    outbound: FakeTcpCarrier,
)
    requires
        call_ensures(
            FakeTcpCarrier::pair_with_mtu,
            (given, direction, syn_data, syn_mss, outer_mtu),
            Ok::<(FakeTcpCarrier, FakeTcpCarrier), CarrierError>((inbound, outbound)),
        ),
    ensures
        inbound@.tuple == given && outbound@.tuple == given,
        inbound@.outer_mtu == outer_mtu && outbound@.outer_mtu == outer_mtu,
        inbound@.syn_mss == syn_mss && outbound@.syn_mss == syn_mss,
        inbound@.cookie == outbound@.cookie,
        !inbound@.sent_syn && !outbound@.sent_syn,
        inbound@.acknowledgment == 0 && outbound@.acknowledgment == 0,
        tuple::usable(given),
{
}

} // verus!
