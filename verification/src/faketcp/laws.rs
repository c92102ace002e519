//! What holds of a path with a carrier at each end.
use crate::faketcp::carrier;
use crate::faketcp::carrier::CarrierModel;
use crate::faketcp::decode;
use crate::faketcp::decode::ViewModel;
use crate::faketcp::flags::TcpFlags;
use crate::faketcp::packet;
use crate::faketcp::tuple;
use vstd::prelude::*;

verus! {

/// A datagram that one end sends is the datagram that the other end receives, in one
/// packet, with its sequence number, whether or not earlier packets arrived.
///
/// The ends are those of one path and agree on the cookie, the packet fits the receiver's
/// MTU, and the addresses have neither flow information nor scope, which packets do not
/// carry. An empty datagram is sent but not received.
pub proof fn law_peer_receives_what_was_sent(
    sender: CarrierModel,
    receiver: CarrierModel,
    bits: TcpFlags,
    datagram: Seq<u8>,
)
    requires
        tuple::usable(sender.tuple),
        sender.tuple.source == decode::plain_address(sender.tuple.source.ip, sender.tuple.source.port),
        sender.tuple.destination == decode::plain_address(
            sender.tuple.destination.ip,
            sender.tuple.destination.port,
        ),
        receiver.tuple == tuple::reversed(sender.tuple),
        receiver.cookie == sender.cookie,
        sender.cookie matches Some(bytes) ==> bytes.len() == 16,
        bits.has(TcpFlags(TcpFlags::SYN)) ==> sender.cookie is Some,
        carrier::send_refusal(sender, bits, datagram) is None,
        carrier::carrier_length(sender, bits, datagram) <= receiver.outer_mtu,
        datagram.len() > 0,
    ensures
        carrier::datagram_in(receiver, carrier::carrier_packet(sender, bits, datagram)) matches Ok(view)
            && view.sequence == sender.send_sequence && view.acknowledgment == sender.acknowledgment && view.flags
            == bits && view.payload == datagram,
{
    reveal(carrier::datagram_in);
    let segment = carrier::carrier_segment(sender, bits, datagram);
    let from = sender.tuple.source;
    let to = sender.tuple.destination;
    let prefix = tuple::pseudo_sum(from.ip, to.ip);
    carrier::lemma_options_fit(sender, bits);
    tuple::lemma_pseudo_sum_bounds(from.ip, to.ip);
    packet::law_packet_view_round_trip(from, to, segment, prefix, Some(prefix));
    packet::lemma_packet_length(from, to, segment, prefix);
}

/// Which datagram a packet brings depends on the packet and the path alone: a carrier
/// never waits for a missing sequence number.
pub proof fn law_delivery_ignores_sequence_gaps(state: CarrierModel, input: Seq<u8>, sequence: u32, acknowledgment: u32)
    ensures
        carrier::datagram_in(state, input) == carrier::datagram_in(
            CarrierModel { send_sequence: sequence, acknowledgment, ..state },
            input,
        ),
{
    reveal(carrier::datagram_in);
}

/// The number that a carrier acknowledges never moves backwards in the circular order of
/// sequence numbers, once there is one.
pub proof fn law_acknowledgment_moves_forward(state: CarrierModel, view: ViewModel)
    requires
        state.acknowledgment != 0,
    ensures
        carrier::after_receiving(state, view).acknowledgment.wrapping_sub(state.acknowledgment) < 0x8000_0000,
{
}

/// What a sender acknowledges after its peer's datagram arrived is the number behind that
/// datagram, where nothing arrived before.
pub proof fn law_first_datagram_is_acknowledged(state: CarrierModel, view: ViewModel)
    requires
        state.acknowledgment == 0,
    ensures
        carrier::after_receiving(state, view).acknowledgment == view.sequence.wrapping_add(
            carrier::consumed(view.payload.len() as int, view.flags.has(TcpFlags(TcpFlags::SYN))),
        ),
{
}

/// A packet of another path is never taken for a datagram of this one.
pub proof fn law_foreign_packets_are_refused(state: CarrierModel, input: Seq<u8>)
    ensures
        carrier::datagram_in(state, input) matches Ok(view) ==> view.source == state.tuple.destination
            && view.destination == state.tuple.source && view.payload.len() > 0 && (view.flags.has(
            TcpFlags(TcpFlags::SYN),
        ) ==> state.cookie is Some && view.cookie == state.cookie),
{
    reveal(carrier::datagram_in);
}

/// The sending carrier of a path acknowledges what the receiving one got: the packets that
/// it sends after the first datagram arrived carry the number behind that datagram.
pub proof fn law_paired_sender_acknowledges(
    inbound: CarrierModel,
    outbound: CarrierModel,
    view: ViewModel,
    bits: TcpFlags,
    datagram: Seq<u8>,
)
    requires
        inbound.acknowledgment == 0,
    ensures
        carrier::carrier_segment(
            carrier::following(outbound, carrier::after_receiving(inbound, view)),
            bits,
            datagram,
        ).acknowledgment == view.sequence.wrapping_add(
            carrier::consumed(view.payload.len() as int, view.flags.has(TcpFlags(TcpFlags::SYN))),
        ),
{
}

}
