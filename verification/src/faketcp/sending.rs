//! What the packets of a carrier look like to whoever reads them.
use crate::address::IpAddress;
use crate::faketcp::carrier;
use crate::faketcp::carrier::{CarrierModel, FakeTcpCarrier};
use crate::faketcp::decode;
use crate::faketcp::decode::{PacketView, ViewModel};
use crate::faketcp::encode;
use crate::faketcp::error::CarrierError;
use crate::faketcp::flags::TcpFlags;
use crate::faketcp::options;
use crate::faketcp::options::TcpOptions;
use crate::faketcp::packet;
use crate::faketcp::tuple;
use crate::faketcp::tuple::{FourTuple, SynDataMode};
use vstd::prelude::*;

verus! {

/// Whether the SYN bit is set.
pub open spec fn has_syn(flags: u8) -> bool {
    flags / 2 % 2 == 1
}

/// Whether the ACK bit is set.
pub open spec fn has_ack(flags: u8) -> bool {
    flags / 16 % 2 == 1
}

/// How long the IP header of a packet on this path is.
pub open spec fn ip_bytes(path: FourTuple) -> int {
    if path.source.ip is V4 {
        20
    } else {
        40
    }
}

/// The sequence number behind so many others.
pub open spec fn moved(sequence: u32, count: int) -> int {
    (sequence + count) % 0x1_0000_0000
}

pub(crate) proof fn lemma_bits()
    ensures
        TcpFlags(0x18).has(TcpFlags(TcpFlags::SYN)) == has_syn(0x18),
        TcpFlags(0x02).has(TcpFlags(TcpFlags::SYN)) == has_syn(0x02),
        TcpFlags(0x12).has(TcpFlags(TcpFlags::SYN)) == has_syn(0x12),
        !has_syn(0x18) && has_ack(0x18),
        has_syn(0x02) && !has_ack(0x02),
        has_syn(0x12) && has_ack(0x12),
{
    assert(0x18u8 & 0x02u8 == 0u8) by (bit_vector);
    assert(0x02u8 & 0x02u8 == 2u8) by (bit_vector);
    assert(0x12u8 & 0x02u8 == 2u8) by (bit_vector);
}

/// What the packet of a carrier brings, to a reader that knows nothing of the carrier.
pub(crate) proof fn lemma_carrier_packet_reads(state: CarrierModel, bits: TcpFlags, datagram: Seq<u8>)
    requires
        tuple::usable(state.tuple),
        state.cookie matches Some(bytes) ==> bytes.len() == 16,
        carrier::carrier_length(state, bits, datagram) <= 65535,
    ensures
        decode::packet_view(carrier::carrier_packet(state, bits, datagram), None) matches Ok(view) && {
            &&& view.source.ip == state.tuple.source.ip && view.source.port == state.tuple.source.port
            &&& view.destination.ip == state.tuple.destination.ip
                && view.destination.port == state.tuple.destination.port
            &&& view.sequence == state.send_sequence
            &&& view.acknowledgment == state.acknowledgment
            &&& view.flags == bits
            &&& view.window == 0xffff
            &&& view.payload == datagram
            &&& view.cookie == (if bits.has(TcpFlags(TcpFlags::SYN)) {
                state.cookie
            } else {
                None
            })
        },
        carrier::carrier_packet(state, bits, datagram).len() == carrier::carrier_length(state, bits, datagram),
{
    let segment = carrier::carrier_segment(state, bits, datagram);
    let from = state.tuple.source;
    let to = state.tuple.destination;
    let prefix = tuple::pseudo_sum(from.ip, to.ip);
    carrier::lemma_options_fit(state, bits);
    tuple::lemma_pseudo_sum_bounds(from.ip, to.ip);
    packet::law_packet_view_round_trip(from, to, segment, prefix, None);
    packet::lemma_packet_length(from, to, segment, prefix);
}

pub(crate) proof fn lemma_plain_length(state: CarrierModel, datagram: Seq<u8>)
    ensures
        carrier::carrier_length(state, TcpFlags(0x18), datagram) == ip_bytes(state.tuple) + 20 + datagram.len(),
{
    lemma_bits();
    let given = options::no_options();
    assert(options::option_bytes(given).len() == 0);
}

pub(crate) proof fn lemma_syn_length(state: CarrierModel, bits: TcpFlags, datagram: Seq<u8>)
    requires
        state.cookie matches Some(bytes) && bytes.len() == 16,
        bits.has(TcpFlags(TcpFlags::SYN)),
    ensures
        carrier::carrier_length(state, bits, datagram) == ip_bytes(state.tuple) + 20 + 28 + datagram.len(),
{
    let given = options::syn_options(state.syn_mss, state.cookie);
    assert(options::unpadded_bytes(given).len() == 27);
}

pub(crate) proof fn lemma_moved(sequence: u32, bytes: int, syn: bool)
    requires
        0 <= bytes <= 65535,
    ensures
        sequence.wrapping_add(carrier::consumed(bytes, syn)) == moved(
            sequence,
            bytes + (if syn {
                1int
            } else {
                0
            }),
        ),
{
}

/// A datagram behind the first travels in one packet that acknowledges and does not open: it
/// has ACK without SYN, the next sequence number, and no options. It is sent exactly where
/// the datagram has at most 65475 bytes and the packet fits the MTU, and uses up as many
/// sequence numbers as the datagram has bytes.
pub proof fn law_datagram_travels_in_one_packet(
    sender: &mut FakeTcpCarrier,
    datagram: &[u8],
    result: Result<Vec<u8>, CarrierError>,
    wire: &[u8],
    read: Result<PacketView, CarrierError>,
)
    requires
        old(sender).wf(),
        call_ensures(FakeTcpCarrier::encode_datagram, (sender, datagram), result),
        result is Ok ==> wire@ == result->Ok_0@,
        call_ensures(decode::decode_packet_view, (wire, None), read),
    ensures
        result is Ok <==> datagram@.len() <= 65475
            && ip_bytes(old(sender)@.tuple) + 20 + datagram@.len() <= old(sender)@.outer_mtu,
        result is Ok ==> {
            &&& wire@.len() == ip_bytes(old(sender)@.tuple) + 20 + datagram@.len()
            &&& read matches Ok(view) && {
                &&& view.payload@ == datagram@
                &&& has_ack(view.flags.0) && !has_syn(view.flags.0)
                &&& view.sequence == old(sender)@.send_sequence
                &&& view.acknowledgment == old(sender)@.acknowledgment
                &&& view.source.ip == old(sender)@.tuple.source.ip
                &&& view.source.port == old(sender)@.tuple.source.port
                &&& view.destination.ip == old(sender)@.tuple.destination.ip
                &&& view.destination.port == old(sender)@.tuple.destination.port
            }
            &&& final(sender)@.send_sequence == moved(old(sender)@.send_sequence, datagram@.len() as int)
        },
        final(sender)@ == (CarrierModel { send_sequence: final(sender)@.send_sequence, ..old(sender)@ }),
        result is Err ==> final(sender)@ == old(sender)@,
{
    old(sender).lemma_wf();
    lemma_bits();
    let state = old(sender)@;
    lemma_plain_length(state, datagram@);
    if result is Ok {
        lemma_carrier_packet_reads(state, TcpFlags(0x18), datagram@);
        lemma_moved(state.send_sequence, datagram@.len() as int, false);
    }
}

/// The first packet of a client opens the path: it has SYN without ACK, and carries the
/// datagram, the cookie and the segment size. It is sent exactly where no first packet was sent
/// before, the carrier has a cookie, and the packet fits; it uses up one sequence number more
/// than the datagram has bytes, and from then on the first packet counts as sent.
pub proof fn law_client_opens_with_syn(
    sender: &mut FakeTcpCarrier,
    datagram: &[u8],
    result: Result<Vec<u8>, CarrierError>,
    wire: &[u8],
    read: Result<PacketView, CarrierError>,
)
    requires
        old(sender).wf(),
        call_ensures(FakeTcpCarrier::encode_syn, (sender, datagram), result),
        result is Ok ==> wire@ == result->Ok_0@,
        call_ensures(decode::decode_packet_view, (wire, None), read),
    ensures
        result is Ok <==> opens(old(sender)@, datagram@),
        result is Ok ==> {
            &&& read matches Ok(view) && brings_first(old(sender)@, datagram@, view@) && has_syn(view.flags.0)
                && !has_ack(view.flags.0)
            &&& final(sender)@ == opened(old(sender)@, datagram@)
        },
        result is Err ==> final(sender)@ == old(sender)@,
        old(sender)@.sent_syn ==> result == Err::<Vec<u8>, CarrierError>(CarrierError::InvalidState),
        !old(sender)@.sent_syn && old(sender)@.cookie is None ==> result == Err::<Vec<u8>, CarrierError>(
            CarrierError::SynDataDisabled,
        ),
{
    old(sender).lemma_wf();
    lemma_first(old(sender)@, TcpFlags(0x02), datagram@);
    lemma_bits();
}

/// The first packet of a server answers one: the same, with both SYN and ACK.
pub proof fn law_server_opens_with_syn_and_ack(
    sender: &mut FakeTcpCarrier,
    datagram: &[u8],
    result: Result<Vec<u8>, CarrierError>,
    wire: &[u8],
    read: Result<PacketView, CarrierError>,
)
    requires
        old(sender).wf(),
        call_ensures(FakeTcpCarrier::encode_syn_ack, (sender, datagram), result),
        result is Ok ==> wire@ == result->Ok_0@,
        call_ensures(decode::decode_packet_view, (wire, None), read),
    ensures
        result is Ok <==> opens(old(sender)@, datagram@),
        result is Ok ==> {
            &&& read matches Ok(view) && brings_first(old(sender)@, datagram@, view@) && has_syn(view.flags.0)
                && has_ack(view.flags.0)
            &&& final(sender)@ == opened(old(sender)@, datagram@)
        },
        result is Err ==> final(sender)@ == old(sender)@,
        old(sender)@.sent_syn ==> result == Err::<Vec<u8>, CarrierError>(CarrierError::InvalidState),
        !old(sender)@.sent_syn && old(sender)@.cookie is None ==> result == Err::<Vec<u8>, CarrierError>(
            CarrierError::SynDataDisabled,
        ),
{
    old(sender).lemma_wf();
    lemma_first(old(sender)@, TcpFlags(0x12), datagram@);
    lemma_bits();
}

/// Whether a carrier can send its first packet with this datagram: it sent none, it has a
/// cookie, and the headers, 28 bytes of options and the datagram fit the MTU.
pub open spec fn opens(state: CarrierModel, datagram: Seq<u8>) -> bool {
    &&& !state.sent_syn
    &&& state.cookie is Some
    &&& datagram.len() <= 65475
    &&& ip_bytes(state.tuple) + 20 + 28 + datagram.len() <= state.outer_mtu
}

/// A carrier behind its first packet.
pub open spec fn opened(state: CarrierModel, datagram: Seq<u8>) -> CarrierModel {
    CarrierModel {
        sent_syn: true,
        send_sequence: moved(state.send_sequence, datagram.len() as int + 1) as u32,
        ..state
    }
}

/// Whether this is what the first packet of a carrier brings.
pub open spec fn brings_first(state: CarrierModel, datagram: Seq<u8>, view: ViewModel) -> bool {
    &&& view.payload == datagram
    &&& view.sequence == state.send_sequence
    &&& view.acknowledgment == state.acknowledgment
    &&& view.source.ip == state.tuple.source.ip && view.source.port == state.tuple.source.port
    &&& view.destination.ip == state.tuple.destination.ip && view.destination.port == state.tuple.destination.port
    &&& view.cookie == state.cookie
}

proof fn lemma_first(state: CarrierModel, bits: TcpFlags, datagram: Seq<u8>)
    requires
        tuple::usable(state.tuple),
        state.cookie matches Some(bytes) ==> bytes.len() == 16,
        bits == TcpFlags(0x02) || bits == TcpFlags(0x12),
    ensures
        opens(state, datagram) <==> carrier::syn_refusal(state) is None && carrier::send_refusal(state, bits, datagram)
            is None,
        opens(state, datagram) ==> {
            &&& decode::packet_view(carrier::carrier_packet(state, bits, datagram), None) matches Ok(view)
                && brings_first(state, datagram, view) && view.flags == bits
            &&& carrier::after_syn(carrier::after_sending(state, bits, datagram.len() as int))
                == opened(state, datagram)
        },
{
    lemma_bits();
    if state.cookie is Some {
        lemma_syn_length(state, bits, datagram);
        if opens(state, datagram) {
            lemma_carrier_packet_reads(state, bits, datagram);
            lemma_moved(state.send_sequence, datagram.len() as int, true);
        }
    }
}

/// Writing into a buffer gives the packet that sending gives, at the front of the buffer, and
/// moves the carrier alike; what stands behind it in the buffer stays. It needs the room that
/// the packet takes, and no more.
pub proof fn law_written_packet_is_the_sent_one(
    sender: &mut FakeTcpCarrier,
    datagram: &[u8],
    sent: Result<Vec<u8>, CarrierError>,
    writer: &mut FakeTcpCarrier,
    output: &mut [u8],
    written: Result<usize, CarrierError>,
)
    requires
        old(sender).wf(),
        old(writer)@ == old(sender)@,
        call_ensures(FakeTcpCarrier::encode_datagram, (sender, datagram), sent),
        call_ensures(FakeTcpCarrier::encode_datagram_into, (writer, datagram, output), written),
    ensures
        written is Ok <==> sent is Ok && old(output)@.len() >= sent->Ok_0@.len(),
        written matches Ok(length) ==> {
            &&& length == sent->Ok_0@.len()
            &&& final(output)@.take(length as int) == sent->Ok_0@
            &&& final(output)@.skip(length as int) == old(output)@.skip(length as int)
            &&& final(writer)@ == final(sender)@
        },
        written is Err ==> final(writer)@ == old(writer)@,
{
    old(sender).lemma_wf();
    lemma_bits();
    let state = old(sender)@;
    lemma_plain_length(state, datagram@);
    carrier::lemma_carrier_packet_length(state, TcpFlags(0x18), datagram@);
    if let Ok(length) = written {
        let bytes = carrier::carrier_packet(state, TcpFlags(0x18), datagram@);
        assert(final(output)@.take(length as int) =~= bytes);
        assert(final(output)@.skip(length as int) =~= old(output)@.skip(length as int));
    }
}

/// The same of the first packets of a client and of a server.
pub proof fn law_written_first_packet_is_the_sent_one(
    sender: &mut FakeTcpCarrier,
    answerer: &mut FakeTcpCarrier,
    datagram: &[u8],
    sent: Result<Vec<u8>, CarrierError>,
    answered: Result<Vec<u8>, CarrierError>,
    writer: &mut FakeTcpCarrier,
    output: &mut [u8],
    written: Result<usize, CarrierError>,
    replier: &mut FakeTcpCarrier,
    reply: &mut [u8],
    replied: Result<usize, CarrierError>,
)
    requires
        old(sender).wf(),
        old(answerer)@ == old(sender)@,
        old(writer)@ == old(sender)@,
        old(replier)@ == old(sender)@,
        call_ensures(FakeTcpCarrier::encode_syn, (sender, datagram), sent),
        call_ensures(FakeTcpCarrier::encode_syn_ack, (answerer, datagram), answered),
        call_ensures(FakeTcpCarrier::encode_syn_into, (writer, datagram, output), written),
        call_ensures(FakeTcpCarrier::encode_syn_ack_into, (replier, datagram, reply), replied),
    ensures
        written is Ok <==> sent is Ok && old(output)@.len() >= sent->Ok_0@.len(),
        written matches Ok(length) ==> length == sent->Ok_0@.len() && final(output)@.take(length as int) == sent->Ok_0@
            && final(writer)@ == final(sender)@,
        replied is Ok <==> answered is Ok && old(reply)@.len() >= answered->Ok_0@.len(),
        replied matches Ok(length) ==> length == answered->Ok_0@.len() && final(reply)@.take(length as int)
            == answered->Ok_0@ && final(replier)@ == final(answerer)@,
        written is Err ==> final(writer)@ == old(writer)@,
        replied is Err ==> final(replier)@ == old(replier)@,
{
    old(sender).lemma_wf();
    lemma_bits();
    let state = old(sender)@;
    carrier::lemma_carrier_packet_length(state, TcpFlags(0x02), datagram@);
    carrier::lemma_carrier_packet_length(state, TcpFlags(0x12), datagram@);
    if let Ok(length) = written {
        assert(final(output)@.take(length as int) =~= carrier::carrier_packet(state, TcpFlags(0x02), datagram@));
    }
    if let Ok(length) = replied {
        assert(final(reply)@.take(length as int) =~= carrier::carrier_packet(state, TcpFlags(0x12), datagram@));
    }
}

/// A carrier with a given sequence number is made for every path between two addresses of one
/// family, none of them unspecified, with no port zero, and for no other. It starts with that
/// number, acknowledges nothing, and has sent nothing.
pub proof fn law_fresh_carrier_starts_at_its_number(
    given: FourTuple,
    syn_data: SynDataMode,
    initial_sequence: u32,
    result: Result<FakeTcpCarrier, CarrierError>,
)
    requires
        call_ensures(FakeTcpCarrier::new_with_initial_sequence, (given, syn_data, initial_sequence), result),
    ensures
        result is Ok <==> {
            &&& (given.source.ip is V4 <==> given.destination.ip is V4)
            &&& given.source.ip != IpAddress::V4(0) && given.source.ip != IpAddress::V6(0)
            &&& given.destination.ip != IpAddress::V4(0) && given.destination.ip != IpAddress::V6(0)
            &&& given.source.port > 0 && given.destination.port > 0
        },
        result matches Ok(carrier) ==> {
            &&& carrier@.tuple == given
            &&& carrier@.send_sequence == initial_sequence
            &&& carrier@.acknowledgment == 0
            &&& !carrier@.sent_syn
            &&& carrier@.syn_mss == 1460 && carrier@.outer_mtu == 65535
            &&& carrier@.cookie is None <==> syn_data is Disabled
        },
        result matches Err(error) ==> error == CarrierError::InvalidTuple,
{
}

/// A carrier for an MTU is refused where the headers alone do not fit it, and where the segment
/// size is zero or does not fit it together with them; the error tells the largest size.
pub proof fn law_segment_size_fits_the_mtu(
    given: FourTuple,
    direction: tuple::CarrierDirection,
    syn_data: SynDataMode,
    syn_mss: u16,
    outer_mtu: u16,
    result: Result<FakeTcpCarrier, CarrierError>,
)
    requires
        tuple::usable(given),
        call_ensures(FakeTcpCarrier::new_with_mtu, (given, direction, syn_data, syn_mss, outer_mtu), result),
    ensures
        outer_mtu < ip_bytes(given) + 20 ==> result == Err::<FakeTcpCarrier, CarrierError>(
            CarrierError::InvalidOuterMtu(outer_mtu),
        ),
        outer_mtu >= ip_bytes(given) + 20 && (syn_mss == 0 || ip_bytes(given) + 20 + syn_mss > outer_mtu) ==> result
            == Err::<FakeTcpCarrier, CarrierError>(
            CarrierError::InvalidMss { mss: syn_mss, maximum: (outer_mtu - ip_bytes(given) - 20) as u16 },
        ),
        syn_mss > 0 && ip_bytes(given) + 20 + syn_mss <= outer_mtu ==> (result matches Ok(carrier) && carrier@.outer_mtu
            == outer_mtu && carrier@.syn_mss == syn_mss && carrier@.tuple == given && !carrier@.sent_syn
            && carrier@.acknowledgment == 0) || result == Err::<FakeTcpCarrier, CarrierError>(CarrierError::Randomness),
{
}

/// A carrier that follows another acknowledges what that one has received, and changes in
/// nothing else.
pub proof fn law_following_copies_the_acknowledgment(
    outbound: &mut FakeTcpCarrier,
    inbound: &FakeTcpCarrier,
    number: u32,
    followed: u32,
)
    requires
        call_ensures(FakeTcpCarrier::follow, (outbound, inbound), ()),
        call_ensures(FakeTcpCarrier::acknowledgment, (&*final(outbound),), number),
        call_ensures(FakeTcpCarrier::acknowledgment, (inbound,), followed),
    ensures
        number == followed,
        final(outbound)@.send_sequence == old(outbound)@.send_sequence,
        final(outbound)@.sent_syn == old(outbound)@.sent_syn,
        final(outbound)@.tuple == old(outbound)@.tuple,
        final(outbound)@.cookie == old(outbound)@.cookie,
{
}

proof fn lemma_syn_needs_a_cookie(state: CarrierModel, input: Seq<u8>)
    ensures
        carrier::datagram_in(state, input) matches Ok(view) ==> (view.flags.has(TcpFlags(TcpFlags::SYN))
            ==> state.cookie is Some && view.cookie == state.cookie),
{
    reveal(carrier::datagram_in);
}

proof fn lemma_acknowledged(before: u32, sequence: u32, bytes: int, syn: bool)
    requires
        0 <= bytes <= 65535,
    ensures
        ({
            let end = moved(
                sequence,
                bytes + (if syn {
                    1int
                } else {
                    0
                }),
            );
            carrier::acknowledged(before, sequence.wrapping_add(carrier::consumed(bytes, syn))) == (if before == 0 || (
            end - before) % 0x1_0000_0000 < 0x8000_0000 {
                end
            } else {
                before as int
            })
        }),
{
    lemma_moved(sequence, bytes, syn);
}

/// A datagram that comes moves the acknowledgment to the number behind it, counting a SYN as
/// one, unless that lies behind what was acknowledged, by at most half of all numbers.
pub proof fn law_datagram_is_acknowledged_to_its_end(
    receiver: &mut FakeTcpCarrier,
    input: &[u8],
    datagram: carrier::DecodedDatagram,
)
    requires
        call_ensures(
            FakeTcpCarrier::decode_datagram,
            (receiver, input),
            Ok::<carrier::DecodedDatagram, CarrierError>(datagram),
        ),
    ensures
        ({
            let end = moved(
                datagram.sequence,
                datagram.payload@.len() + (if datagram.was_syn {
                    1int
                } else {
                    0
                }),
            );
            let before = old(receiver)@.acknowledgment;
            final(receiver)@.acknowledgment == (if before == 0 || (end - before) % 0x1_0000_0000 < 0x8000_0000 {
                end
            } else {
                before as int
            })
        }),
        final(receiver)@ == (CarrierModel {
            acknowledgment: final(receiver)@.acknowledgment,
            ..old(receiver)@
        }),
        datagram.payload@.len() > 0,
        input@.len() <= old(receiver)@.outer_mtu,
        datagram.was_syn ==> old(receiver)@.cookie is Some,
{
    carrier::lemma_datagram_size(old(receiver)@, input@);
    lemma_syn_needs_a_cookie(old(receiver)@, input@);
    let view = carrier::datagram_in(old(receiver)@, input@)->Ok_0;
    lemma_acknowledged(old(receiver)@.acknowledgment, view.sequence, view.payload.len() as int, datagram.was_syn);
}

/// A SYN offers the segment size, selective acknowledgements, a window scale of seven and the
/// cookie, and its options read back as such.
pub proof fn law_syn_options_say_what_was_asked(
    mss: u16,
    cookie: Option<&[u8]>,
    given: TcpOptions,
    bytes: Result<Vec<u8>, CarrierError>,
    input: &[u8],
    read: Result<TcpOptions, CarrierError>,
)
    requires
        cookie matches Some(content) ==> content@.len() <= 16,
        call_ensures(TcpOptions::for_syn_with_mss, (mss, cookie), given),
        call_ensures(TcpOptions::encode, (&given,), bytes),
        bytes is Ok ==> input@ == bytes->Ok_0@,
        call_ensures(TcpOptions::decode, (input,), read),
    ensures
        bytes is Ok,
        bytes->Ok_0@.len() % 4 == 0 && bytes->Ok_0@.len() <= 40,
        read matches Ok(found) && {
            &&& found.mss == Some(mss)
            &&& found.sack_permitted
            &&& found.window_scale == Some(7u8)
            &&& found.timestamps is None
            &&& found.fast_open_cookie is None <==> cookie is None
            &&& found@ == given@
        },
{
    let content = match cookie {
        Some(bytes) => Some(bytes@),
        None => None,
    };
    options::law_syn_options_are_zero_filled(mss, content);
    options::law_options_round_trip(given@);
}

/// Options that hold nothing take no bytes, and are empty; a cookie of more than sixteen bytes
/// cannot be written.
pub proof fn law_empty_options_take_no_bytes(
    given: TcpOptions,
    empty: bool,
    bytes: Result<Vec<u8>, CarrierError>,
)
    requires
        call_ensures(TcpOptions::is_empty, (&given,), empty),
        call_ensures(TcpOptions::encode, (&given,), bytes),
    ensures
        empty <==> given.mss is None && !given.sack_permitted && given.timestamps is None && given.window_scale is None
            && given.fast_open_cookie is None,
        empty ==> (bytes matches Ok(content) && content@.len() == 0),
        bytes is Err <==> (given.fast_open_cookie matches Some(cookie) && cookie.length > 16),
{
}

} // verus!
