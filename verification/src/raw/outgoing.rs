//! What a path sends: the shape of its packets, and how a datagram is spread over them.
use crate::address::{IpAddress, SocketAddress};
use crate::faketcp::carrier;
use crate::faketcp::carrier::{CarrierModel, FakeTcpCarrier};
use crate::faketcp::decode;
use crate::faketcp::decode::{PacketView, ViewModel};
use crate::faketcp::error::CarrierError;
use crate::faketcp::sending;
use crate::faketcp::sending::{has_ack, has_syn, moved};
use crate::faketcp::tuple;
use crate::faketcp::tuple::FourTuple;
use crate::raw::error::RawError;
use crate::raw::send;
use crate::raw::send::{BatchSender, SendStep};
use vstd::prelude::*;

verus! {

/// Whether this is what the next packet of a sender brings: the datagram, from the sender's
/// number on; both SYN and ACK in the first packet of a server, SYN without ACK in the first
/// of a client, and ACK without SYN in every later one.
pub open spec fn brings_next(state: CarrierModel, server_side: bool, datagram: Seq<u8>, view: ViewModel) -> bool {
    &&& has_syn(view.flags.0) <==> !state.sent_syn
    &&& has_ack(view.flags.0) <==> state.sent_syn || server_side
    &&& view.payload == datagram
    &&& view.sequence == state.send_sequence
    &&& view.acknowledgment == state.acknowledgment
    &&& view.source.ip == state.tuple.source.ip && view.source.port == state.tuple.source.port
    &&& view.destination.ip == state.tuple.destination.ip && view.destination.port == state.tuple.destination.port
    &&& view.cookie == (if state.sent_syn {
        None
    } else {
        state.cookie
    })
}

/// How many bytes the headers of the next packet of a sender take.
pub open spec fn header_bytes(state: CarrierModel) -> int {
    sending::ip_bytes(state.tuple) + 20 + (if state.sent_syn {
        0int
    } else {
        28
    })
}

/// Where a sender stands behind its next packet.
pub open spec fn behind(state: CarrierModel, datagram: Seq<u8>) -> CarrierModel {
    CarrierModel {
        sent_syn: true,
        send_sequence: moved(
            state.send_sequence,
            datagram.len() + (if state.sent_syn {
                0int
            } else {
                1
            }),
        ) as u32,
        ..state
    }
}

/// Whether a sender can make its next packet with this datagram, in so much room.
pub open spec fn sendable(state: CarrierModel, datagram: Seq<u8>, room: int) -> bool {
    &&& state.sent_syn || state.cookie is Some
    &&& datagram.len() <= 65475
    &&& header_bytes(state) + datagram.len() <= state.outer_mtu
    &&& header_bytes(state) + datagram.len() <= room
}

proof fn lemma_next_length(state: CarrierModel, server_side: bool, datagram: Seq<u8>)
    requires
        state.cookie matches Some(bytes) ==> bytes.len() == 16,
        state.sent_syn || state.cookie is Some,
    ensures
        carrier::carrier_length(state, send::outgoing_flags(state, server_side), datagram) == header_bytes(state)
            + datagram.len(),
{
    sending::lemma_bits();
    if state.sent_syn {
        sending::lemma_plain_length(state, datagram);
    } else {
        sending::lemma_syn_length(state, send::outgoing_flags(state, server_side), datagram);
    }
}

pub(crate) proof fn lemma_next(state: CarrierModel, server_side: bool, datagram: Seq<u8>, room: int)
    requires
        tuple::usable(state.tuple),
        state.cookie matches Some(bytes) ==> bytes.len() == 16,
    ensures
        send::carried(state, server_side, datagram, room) is Ok <==> sendable(state, datagram, room),
        send::carried(state, server_side, datagram, room) matches Ok((packet, next)) ==> {
            &&& packet.len() == header_bytes(state) + datagram.len()
            &&& next == behind(state, datagram)
            &&& decode::packet_view(packet, None) matches Ok(view) && brings_next(state, server_side, datagram, view)
        },
{
    reveal(send::carried);
    let bits = send::outgoing_flags(state, server_side);
    sending::lemma_bits();
    if state.sent_syn || state.cookie is Some {
        lemma_next_length(state, server_side, datagram);
        if sendable(state, datagram, room) {
            sending::lemma_carrier_packet_reads(state, bits, datagram);
            sending::lemma_moved(state.send_sequence, datagram.len() as int, !state.sent_syn);
        }
    }
}

/// The first packet that a server's sender makes has both SYN and ACK, the first packet of a
/// client's sender has SYN without ACK, and every later packet of either has ACK without SYN.
/// Each carries the whole datagram, goes on where the last one ended, and is made exactly where
/// it fits the MTU and the room given; after it the first packet counts as sent.
pub proof fn law_first_packet_opens_and_later_ones_acknowledge(
    outbound: &mut FakeTcpCarrier,
    server_side: bool,
    datagram: &[u8],
    output: &mut [u8],
    result: Result<usize, CarrierError>,
    wire: &[u8],
    read: Result<PacketView, CarrierError>,
)
    requires
        old(outbound).wf(),
        call_ensures(send::encode_next, (outbound, server_side, datagram, output), result),
        result is Ok ==> wire@ == final(output)@.take(result->Ok_0 as int),
        call_ensures(decode::decode_packet_view, (wire, None), read),
    ensures
        result is Ok <==> sendable(old(outbound)@, datagram@, old(output)@.len() as int),
        result is Ok ==> {
            &&& read matches Ok(view) && brings_next(old(outbound)@, server_side, datagram@, view@)
            &&& wire@.len() == result->Ok_0 == header_bytes(old(outbound)@) + datagram@.len()
            &&& final(outbound)@ == behind(old(outbound)@, datagram@)
        },
        result is Err ==> final(outbound)@ == old(outbound)@,
{
    old(outbound).lemma_wf();
    lemma_next(old(outbound)@, server_side, datagram@, old(output)@.len() as int);
    if result is Ok {
        let packet = send::carried(old(outbound)@, server_side, datagram@, old(output)@.len() as int)->Ok_0.0;
        assert(final(output)@.take(packet.len() as int) =~= packet);
    }
}

/// Of a batch that is made, each packet brings one segment, in order; only the first packet of
/// the path opens it, and each packet goes on where the one before it ended.
pub proof fn law_batch_carries_the_segments_in_order(
    state: CarrierModel,
    server_side: bool,
    contents: Seq<u8>,
    size: int,
    first: int,
    count: int,
    room: int,
    index: int,
)
    requires
        tuple::usable(state.tuple),
        state.cookie matches Some(bytes) ==> bytes.len() == 16,
        0 <= index < count,
    ensures
        send::carried_batch(state, server_side, contents, size, first, count, room) matches Ok((packets, next)) ==> {
            &&& packets.len() == count
            &&& next.sent_syn
            &&& decode::packet_view(packets[index], None) matches Ok(view) && {
                &&& view.payload == send::segment_at(contents, size, first + index)
                &&& has_syn(view.flags.0) <==> !state.sent_syn && index == 0
                &&& has_ack(view.flags.0) <==> state.sent_syn || index > 0 || server_side
                &&& index == 0 ==> view.sequence == state.send_sequence
                &&& view.source.ip == state.tuple.source.ip && view.destination.ip == state.tuple.destination.ip
            }
        },
    decreases count,
{
    if send::carried_batch(state, server_side, contents, size, first, count, room) is Ok {
        lemma_batch_kept(state, server_side, contents, size, first, count - 1, room);
        let (packets, current) = send::carried_batch(
            state,
            server_side,
            contents,
            size,
            first,
            count - 1,
            room,
        )->Ok_0;
        lemma_next(current, server_side, send::segment_at(contents, size, first + count - 1), room);
        if index < count - 1 {
            law_batch_carries_the_segments_in_order(
                state,
                server_side,
                contents,
                size,
                first,
                count - 1,
                room,
                index,
            );
        }
    }
}

proof fn lemma_batch_kept(
    state: CarrierModel,
    server_side: bool,
    contents: Seq<u8>,
    size: int,
    first: int,
    count: int,
    room: int,
)
    requires
        tuple::usable(state.tuple),
        state.cookie matches Some(bytes) ==> bytes.len() == 16,
        count >= 0,
    ensures
        send::carried_batch(state, server_side, contents, size, first, count, room) matches Ok((packets, next)) ==> {
            &&& packets.len() == count
            &&& next == (CarrierModel { sent_syn: next.sent_syn, send_sequence: next.send_sequence, ..state })
            &&& next.sent_syn <==> state.sent_syn || count > 0
            &&& count == 0 ==> next == state
        },
    decreases count,
{
    if count > 0 && send::carried_batch(state, server_side, contents, size, first, count, room) is Ok {
        lemma_batch_kept(state, server_side, contents, size, first, count - 1, room);
        let (packets, current) = send::carried_batch(
            state,
            server_side,
            contents,
            size,
            first,
            count - 1,
            room,
        )->Ok_0;
        lemma_next(current, server_side, send::segment_at(contents, size, first + count - 1), room);
    }
}

// ---------------------------------------------------------------------------
// Segments
// ---------------------------------------------------------------------------

/// A datagram is cut into as few segments of a size as hold all of it: they begin where the
/// one before ended, all but the last are of that size, and the last ends the datagram.
pub proof fn law_segments_touch(length: usize, size: usize, index: usize, range: (usize, usize))
    requires
        size > 0,
        index < send::segments_of(length as int, size as int),
        call_ensures(send::segment_range, (length, size, index), range),
    ensures
        range.0 == index * size,
        range.0 < range.1 <= length,
        range.1 < length ==> range.1 == (index + 1) * size && index + 1 < send::segments_of(length as int, size as int),
        range.1 == length ==> index + 1 == send::segments_of(length as int, size as int),
        range.1 - range.0 <= size,
{
    let count = send::segments_of(length as int, size as int);
    lemma_segment_count(length as int, size as int);
    assert(index * size < length) by (nonlinear_arith)
        requires
            index <= count - 1,
            (count - 1) * size < length,
            size > 0,
    ;
    assert((index + 1) * size == index * size + size) by (nonlinear_arith);
    if index + 1 < count {
        assert((index + 1) * size < length) by (nonlinear_arith)
            requires
                index + 1 <= count - 1,
                (count - 1) * size < length,
                size > 0,
        ;
    } else {
        assert(index + 1 == count);
    }
}

proof fn lemma_segment_count(length: int, size: int)
    requires
        size > 0,
        length >= 0,
    ensures
        send::segments_of(length, size) * size >= length,
        (send::segments_of(length, size) - 1) * size < length,
        send::segments_of(length, size) == 0 <==> length == 0,
{
    let q = length / size;
    let r = length % size;
    assert(length == q * size + r && 0 <= r < size) by (nonlinear_arith)
        requires
            size > 0,
            length >= 0,
            q == length / size,
            r == length % size,
    ;
    assert((q + 1) * size == q * size + size) by (nonlinear_arith);
    assert((q - 1) * size == q * size - size) by (nonlinear_arith);
    if length == 0 {
        assert(q == 0) by (nonlinear_arith)
            requires
                size > 0,
                q == 0int / size,
        ;
    }
    if q == 0 {
        assert(q * size == 0) by (nonlinear_arith)
            requires
                q == 0,
        ;
    }
}

/// A sender that begins a datagram takes it only to its own destination and only from its own
/// source, where one is named; it needs a segment size, or a datagram whose length is one. It
/// then counts as many segments as hold all of the datagram and no more. One that is under way
/// goes on with the datagram that it has.
pub proof fn law_begun_datagram_is_counted(
    sender: &mut BatchSender,
    destination: SocketAddress,
    source: Option<IpAddress>,
    length: usize,
    segment_size: Option<usize>,
    result: Result<(), RawError>,
)
    requires
        call_ensures(BatchSender::begin, (sender, destination, source, length, segment_size), result),
    ensures
        destination != old(sender)@.tuple.destination ==> result == Err::<(), RawError>(RawError::DestinationMismatch),
        destination == old(sender)@.tuple.destination && (source matches Some(ip) && ip != old(sender)@.tuple.source.ip)
            ==> result == Err::<(), RawError>(RawError::SourceMismatch),
        destination == old(sender)@.tuple.destination && (source matches Some(ip)
            ==> ip == old(sender)@.tuple.source.ip)
            ==> {
            let size = match segment_size {
                Some(size) => size as int,
                None => length as int,
            };
            let count = final(sender)@.segments;
            if old(sender)@.segments != 0 {
                result is Ok && final(sender)@ == old(sender)@
            } else if size == 0 {
                result == Err::<(), RawError>(RawError::InvalidSegmentation)
            } else {
                &&& result is Ok
                &&& final(sender)@.segment_size == size
                &&& count * size >= length
                &&& (count - 1) * size < length
                &&& segment_size is None ==> count == 1
            }
        },
        result is Err ==> final(sender)@ == old(sender)@,
{
    let size = match segment_size {
        Some(size) => size as int,
        None => length as int,
    };
    if size > 0 {
        lemma_segment_count(length as int, size);
        if segment_size is None {
            assert(length as int % size == 0 && length as int / size == 1) by (nonlinear_arith)
                requires
                    size == length,
                    size > 0,
            ;
        }
    }
}

/// A batch that is prepared holds as many packets as a batch may, or all that are left where
/// that is fewer; a batch that still has packets to send is kept as it is.
pub proof fn law_batch_is_full_or_the_last(
    sender: &mut BatchSender,
    outbound: &mut FakeTcpCarrier,
    contents: &[u8],
    result: Result<(), RawError>,
)
    requires
        old(outbound).wf(),
        old(sender)@.batch_size > 0,
        0 <= old(sender)@.segment <= old(sender)@.segments,
        call_ensures(BatchSender::prepare, (sender, outbound, contents), result),
    ensures
        old(sender)@.packets.len() > 0 ==> result is Ok && final(sender)@ == old(sender)@
            && final(outbound)@ == old(outbound)@,
        result is Ok && old(sender)@.packets.len() == 0 ==> {
            let count = final(sender)@.packets.len();
            &&& count <= old(sender)@.batch_size
            &&& count <= old(sender)@.segments - old(sender)@.segment
            &&& count == old(sender)@.batch_size || count == old(sender)@.segments - old(sender)@.segment
            &&& final(sender)@.sent == 0
            &&& final(sender)@.segment == old(sender)@.segment && final(sender)@.segments == old(sender)@.segments
        },
        result is Err ==> final(sender)@ == old(sender)@,
{
    old(outbound).lemma_wf();
    let state = old(sender)@;
    if state.packets.len() == 0 && result is Ok {
        lemma_batch_kept(
            old(outbound)@,
            state.server_side,
            contents@,
            state.segment_size,
            state.segment,
            send::next_batch(state),
            send::packet_room(state.tuple.source.ip, state.segment_size),
        );
    }
}

/// Packets that were sent are counted once each: the datagram is done exactly when as many
/// were sent as it has segments, and the sender is then idle; until then it goes on with the
/// rest of the batch, or with the next one. Sending nothing is an error.
pub proof fn law_datagram_is_done_with_its_last_segment(
    sender: &mut BatchSender,
    count: usize,
    result: Result<SendStep, RawError>,
)
    requires
        count <= old(sender)@.packets.len() - old(sender)@.sent,
        call_ensures(BatchSender::after_send, (sender, count), result),
    ensures
        result is Err <==> count == 0,
        count == 0 ==> final(sender)@ == old(sender)@ && result == Err::<SendStep, RawError>(RawError::NothingSent),
        count > 0 ==> (result == Ok::<SendStep, RawError>(SendStep::Done)
            <==> old(sender)@.segment + count == old(sender)@.segments),
        count > 0 && old(sender)@.segment + count == old(sender)@.segments ==> final(sender)@.segments == 0
            && final(sender)@.segment == 0,
        count > 0 && old(sender)@.segment + count != old(sender)@.segments ==> {
            &&& result == Ok::<SendStep, RawError>(SendStep::Continue)
            &&& final(sender)@.segment == old(sender)@.segment + count
            &&& final(sender)@.segments == old(sender)@.segments
        },
        count > 0 && old(sender)@.sent + count == old(sender)@.packets.len() ==> final(sender)@.packets.len() == 0
            && final(sender)@.sent == 0,
        count > 0 && old(sender)@.sent + count < old(sender)@.packets.len()
            ==> final(sender)@.packets == old(sender)@.packets && final(sender)@.sent == old(sender)@.sent + count,
{
}

/// A new sender is idle: it has no packets and no datagram under way.
pub proof fn law_new_sender_is_idle(given: FourTuple, server_side: bool, batch_size: usize, sender: BatchSender)
    requires
        batch_size > 0,
        call_ensures(BatchSender::new, (given, server_side, batch_size), sender),
    ensures
        sender@.tuple == given,
        sender@.server_side == server_side,
        sender@.batch_size == batch_size,
        sender@.packets.len() == 0 && sender@.sent == 0,
        sender@.segments == 0 && sender@.segment == 0,
{
}

proof fn lemma_fitting_batch(
    state: CarrierModel,
    server_side: bool,
    contents: Seq<u8>,
    size: int,
    first: int,
    count: int,
    room: int,
)
    requires
        tuple::usable(state.tuple),
        state.cookie matches Some(bytes) ==> bytes.len() == 16,
        state.sent_syn || state.cookie is Some,
        0 < size <= 65475,
        0 <= first,
        0 <= count,
        first + count <= send::segments_of(contents.len() as int, size),
        header_bytes(state) + size <= state.outer_mtu,
        header_bytes(state) + size <= room,
    ensures
        send::carried_batch(state, server_side, contents, size, first, count, room) is Ok,
    decreases count,
{
    if count > 0 {
        lemma_fitting_batch(state, server_side, contents, size, first, count - 1, room);
        lemma_batch_kept(state, server_side, contents, size, first, count - 1, room);
        let (packets, current) = send::carried_batch(
            state,
            server_side,
            contents,
            size,
            first,
            count - 1,
            room,
        )->Ok_0;
        let segment = send::segment_at(contents, size, first + count - 1);
        let start = (first + count - 1) * size;
        lemma_segment_count(contents.len() as int, size);
        let total = send::segments_of(contents.len() as int, size);
        assert(0 <= start <= contents.len()) by (nonlinear_arith)
            requires
                start == (first + count - 1) * size,
                0 <= first + count - 1 <= total - 1,
                (total - 1) * size < contents.len(),
                size > 0,
        ;
        assert(segment.len() <= size);
        lemma_next(current, server_side, segment, room);
    }
}

/// A batch is prepared wherever its packets fit: with segments of a size that fits the MTU beside
/// the headers, and with a cookie where the path is not open yet, only a batch too large to be
/// addressed is refused.
pub proof fn law_fitting_batch_is_prepared(
    sender: &mut BatchSender,
    outbound: &mut FakeTcpCarrier,
    contents: &[u8],
    result: Result<(), RawError>,
)
    requires
        old(outbound).wf(),
        old(outbound)@.sent_syn || old(outbound)@.cookie is Some,
        old(outbound)@.tuple == old(sender)@.tuple,
        0 < old(sender)@.segment_size <= 65475,
        0 < old(sender)@.batch_size,
        0 <= old(sender)@.segment <= old(sender)@.segments,
        old(sender)@.segments <= send::segments_of(contents@.len() as int, old(sender)@.segment_size),
        header_bytes(old(outbound)@) + old(sender)@.segment_size <= old(outbound)@.outer_mtu,
        (old(sender)@.segment_size + 100) * old(sender)@.batch_size <= usize::MAX,
        call_ensures(BatchSender::prepare, (sender, outbound, contents), result),
    ensures
        result is Ok,
{
    old(outbound).lemma_wf();
    let state = old(sender)@;
    let room = send::packet_room(state.tuple.source.ip, state.segment_size);
    let count = send::next_batch(state);
    if state.packets.len() == 0 {
        lemma_fitting_batch(
            old(outbound)@,
            state.server_side,
            contents@,
            state.segment_size,
            state.segment,
            count,
            room,
        );
        let size = state.segment_size;
        let most = state.batch_size;
        assert(room <= size + 100);
        assert(room * count <= (size + 100) * most && room <= (size + 100) * most) by (nonlinear_arith)
            requires
                0 < room <= size + 100,
                0 <= count <= most,
                0 < most,
        ;
    }
}

} // verus!
