//! What a path receives: which packets count, and where their datagrams go.
use crate::address::{IpAddress, SocketAddress};
use crate::endian;
use crate::faketcp::carrier;
use crate::faketcp::carrier::FakeTcpCarrier;
use crate::faketcp::reading;
use crate::faketcp::tuple::FourTuple;
use crate::raw::batch;
use crate::raw::error::RawError;
use crate::raw::filter;
use crate::raw::filter::FilterInstruction;
use crate::raw::lines;
use crate::raw::poll::{InputEvent, RecvPoll, RecvStep};
use crate::raw::receive;
use crate::raw::receive::{BatchReceiver, DecodedRawPacket, ReceiverModel, SlotMeta};
use crate::raw::ring;
use crate::raw::ring::{RingFrame, RingPayloadCopy, RingSlot};
use crate::raw::route;
use crate::raw::route::PacketRoute;
use crate::raw::send::RawSendMode;
use crate::raw::windivert;
use crate::raw::windivert::{PacketReceiver, PacketStep};
use vstd::prelude::*;

verus! {

// ---------------------------------------------------------------------------
// Batches
// ---------------------------------------------------------------------------

/// The packet at a place of a batch.
pub open spec fn packet_at(state: ReceiverModel, index: int) -> Seq<u8> {
    state.buffer.subrange(index * 65535, index * 65535 + state.lengths[index])
}

/// Whether the carrier takes the packet at a place of a batch.
pub open spec fn taken_at(state: ReceiverModel, index: int) -> bool {
    carrier::datagram_in(state.carrier, packet_at(state, index)) is Ok
}

proof fn lemma_next_in_batch(state: ReceiverModel, budget: int)
    requires
        budget > 0,
        state.valid(),
    ensures
        receive::next_in_batch(state, budget).outcome matches Ok(Some(packet)) ==> {
            let next = receive::next_in_batch(state, budget).state;
            let at = packet.batch_index as int;
            &&& state.index <= at < state.count
            &&& next.index == at + 1
            &&& forall|index: int| state.index <= index < at ==> !#[trigger] taken_at(state, index)
            &&& taken_at(state, at)
            &&& packet.payload_length == carrier::datagram_in(state.carrier, packet_at(state, at))->Ok_0.payload.len()
            &&& packet.payload_offset + packet.payload_length == state.lengths[at]
            &&& at * 65535 + state.lengths[at] <= state.buffer.len()
            &&& next.carrier == carrier::after_receiving(
                state.carrier,
                carrier::datagram_in(state.carrier, packet_at(state, at))->Ok_0,
            )
            &&& receive::next_in_batch(state, budget).budget == budget - (at - state.index)
            &&& state.rejects + (at - state.index) <= u64::MAX ==> next.rejects == state.rejects + (at - state.index)
            &&& next.buffer == state.buffer && next.lengths == state.lengths && next.count == state.count
        },
        receive::next_in_batch(state, budget).outcome matches Ok(None) ==> {
            let next = receive::next_in_batch(state, budget);
            &&& forall|index: int| state.index <= index < next.state.index ==> !#[trigger] taken_at(state, index)
            &&& next.state.index >= state.count || next.budget == 0
            &&& next.state.carrier == state.carrier
            &&& next.state.index >= state.index
        },
    decreases state.count - state.index,
{
    if state.index < state.count {
        let length = state.lengths[state.index] as int;
        let start = state.index * 65535;
        if start + length <= usize::MAX && start + length <= state.buffer.len() {
            carrier::lemma_datagram_size(state.carrier, packet_at(state, state.index));
            if !taken_at(state, state.index) {
                let rejected = ReceiverModel {
                    index: state.index + 1,
                    rejects: receive::counted(state.rejects),
                    ..state
                };
                if budget > 1 {
                    lemma_next_in_batch(rejected, budget - 1);
                    assert forall|index: int| rejected.index <= index
                        implies taken_at(rejected, index) == #[trigger] taken_at(
                        state,
                        index,
                    ) by {
                        assert(packet_at(rejected, index) == packet_at(state, index));
                    }
                    let next = receive::next_in_batch(rejected, budget - 1);
                    if let Ok(Some(packet)) = next.outcome {
                        let at = packet.batch_index as int;
                        assert(packet_at(rejected, at) == packet_at(state, at));
                        assert forall|index: int| state.index <= index < at
                            implies !#[trigger] taken_at(state, index) by {
                            if index > state.index {
                                assert(!taken_at(rejected, index));
                            }
                        }
                    }
                    if let Ok(None) = next.outcome {
                        assert forall|index: int| state.index <= index < next.state.index implies !#[trigger] taken_at(
                            state,
                            index,
                        ) by {
                            if index > state.index {
                                assert(!taken_at(rejected, index));
                            }
                        }
                    }
                }
            }
        }
    }
}

/// The next datagram of a batch is that of the first packet left that the carrier takes; every
/// packet before it is one that the carrier does not take, and is counted as rejected. Its
/// place says where the payload lies: at the end of its packet.
pub proof fn law_next_datagram_is_the_first_that_is_taken(
    receiver: &mut BatchReceiver,
    reject_budget: &mut usize,
    packet: DecodedRawPacket,
)
    requires
        old(receiver)@.valid(),
        old(receiver)@.pending is None,
        call_ensures(
            BatchReceiver::next_decoded_packet,
            (receiver, reject_budget),
            Ok::<Option<DecodedRawPacket>, RawError>(Some(packet)),
        ),
    ensures
        ({
            let state = old(receiver)@;
            let at = packet.batch_index as int;
            &&& state.index <= at < state.count
            &&& final(receiver)@.index == at + 1
            &&& taken_at(state, at)
            &&& forall|index: int| state.index <= index < at ==> !#[trigger] taken_at(state, index)
            &&& packet.payload_offset + packet.payload_length == state.lengths[at]
            &&& packet.payload_length > 0
            &&& *final(reject_budget) == *old(reject_budget) - (at - state.index)
            &&& state.rejects + (at - state.index) <= u64::MAX ==> final(receiver)@.rejects == state.rejects + (at
                - state.index)
        }),
{
    let state = old(receiver)@;
    lemma_next_in_batch(state, *old(reject_budget) as int);
    carrier::lemma_datagram_size(state.carrier, packet_at(state, packet.batch_index as int));
}

/// The payload of a datagram that was found is the one that its packet carries.
pub proof fn law_payload_is_the_one_that_was_sent(
    receiver: &mut BatchReceiver,
    reject_budget: &mut usize,
    packet: DecodedRawPacket,
    bytes: Result<&[u8], RawError>,
)
    requires
        old(receiver)@.valid(),
        old(receiver)@.pending is None,
        call_ensures(
            BatchReceiver::next_decoded_packet,
            (receiver, reject_budget),
            Ok::<Option<DecodedRawPacket>, RawError>(Some(packet)),
        ),
        call_ensures(BatchReceiver::decoded_payload, (&*final(receiver), packet), bytes),
    ensures
        packet.batch_index * 65535 + old(receiver)@.lengths[packet.batch_index as int] <= usize::MAX
            ==> (bytes matches Ok(
            payload,
        ) && carrier::datagram_in(old(receiver)@.carrier, packet_at(old(receiver)@, packet.batch_index as int)) matches Ok(
            view,
        ) && payload@ == view.payload),
{
    let state = old(receiver)@;
    let at = packet.batch_index as int;
    lemma_next_in_batch(state, *old(reject_budget) as int);
    carrier::lemma_datagram_size(state.carrier, packet_at(state, at));
    let view = carrier::datagram_in(state.carrier, packet_at(state, at))->Ok_0;
    let start = at * 65535 + packet.payload_offset;
    assert(packet_at(state, at).skip(packet.payload_offset as int) =~= state.buffer.subrange(
        start,
        start + packet.payload_length,
    ));
}

/// A batch is left only when none of its packets is left, or when the budget for rejected
/// packets is used up; no packet that the carrier takes is passed over.
pub proof fn law_no_taken_packet_is_passed_over(
    receiver: &mut BatchReceiver,
    reject_budget: &mut usize,
    index: int,
)
    requires
        old(receiver)@.valid(),
        old(receiver)@.pending is None,
        *old(reject_budget) > 0,
        call_ensures(
            BatchReceiver::next_decoded_packet,
            (receiver, reject_budget),
            Ok::<Option<DecodedRawPacket>, RawError>(None),
        ),
        old(receiver)@.index <= index < final(receiver)@.index,
    ensures
        !taken_at(old(receiver)@, index),
        final(receiver)@.index >= old(receiver)@.count || *final(reject_budget) == 0,
        final(receiver)@.carrier == old(receiver)@.carrier,
{
    lemma_next_in_batch(old(receiver)@, *old(reject_budget) as int);
    assert(!taken_at(old(receiver)@, index));
}

/// A datagram that was put aside comes next, before any packet of the batch.
pub proof fn law_datagram_put_aside_comes_next(
    receiver: &mut BatchReceiver,
    reject_budget: &mut usize,
    result: Result<Option<DecodedRawPacket>, RawError>,
)
    requires
        old(receiver)@.pending is Some,
        call_ensures(BatchReceiver::next_decoded_packet, (receiver, reject_budget), result),
    ensures
        *old(reject_budget) > 0 ==> result == Ok::<Option<DecodedRawPacket>, RawError>(old(receiver)@.pending)
            && final(receiver)@.pending is None && final(receiver)@.index == old(receiver)@.index,
        *old(reject_budget) == 0 ==> result == Ok::<Option<DecodedRawPacket>, RawError>(None)
            && final(receiver)@ == old(receiver)@,
{
}

proof fn lemma_group_sizes(state: ReceiverModel, budget: int, stride: int, more: int)
    requires
        more >= 0,
    ensures
        receive::gathered_group(state, budget, stride, more).payloads.len() <= more,
        forall|index: int|
            0 <= index < receive::gathered_group(state, budget, stride, more).payloads.len() ==> (
            #[trigger] receive::gathered_group(state, budget, stride, more).payloads[index]).len() == stride,
    decreases more,
{
    if more > 0 {
        let next = receive::next_packet(state, budget);
        if let Ok(Some(packet)) = next.outcome {
            if packet.payload_length == stride {
                if let Ok(bytes) = receive::payload_of(next.state.buffer, packet) {
                    lemma_group_sizes(next.state, next.budget, stride, more - 1);
                    let rest = receive::gathered_group(next.state, next.budget, stride, more - 1).payloads;
                    let all = receive::gathered_group(state, budget, stride, more).payloads;
                    assert(all == seq![bytes] + rest);
                    assert forall|index: int| 0 <= index < all.len()
                        implies (#[trigger] all[index]).len() == stride by {
                        if index > 0 {
                            assert(all[index] == rest[index - 1]);
                        }
                    }
                }
            }
        }
    }
}

/// A slot that was filled holds whole datagrams of one size: at least one, at most as many as
/// it may hold, and no more bytes than it has room for.
pub proof fn law_slot_holds_whole_datagrams(
    receiver: &mut BatchReceiver,
    slot: &mut [u8],
    segments: usize,
    reject_budget: &mut usize,
    meta: SlotMeta,
)
    requires
        segments >= 1,
        old(slot)@.len() <= usize::MAX,
        call_ensures(
            BatchReceiver::fill_slot,
            (receiver, slot, segments, reject_budget),
            Ok::<Option<SlotMeta>, RawError>(Some(meta)),
        ),
    ensures
        ({
            let filled = receive::filled_slot(
                old(receiver)@,
                *old(reject_budget) as nat,
                old(slot)@.len() as int,
                segments as int,
            );
            let count = filled.payloads.len() as int;
            &&& 1 <= count <= segments
            &&& forall|index: int| 0 <= index < count ==> (#[trigger] filled.payloads[index]).len() == meta.stride
            &&& count * meta.stride <= usize::MAX ==> meta.len == count * meta.stride
            &&& meta.stride <= old(slot)@.len()
        }),
        final(slot)@.len() == old(slot)@.len(),
{
    let state = old(receiver)@;
    let room = old(slot)@.len() as int;
    let first = receive::next_fit(state, *old(reject_budget) as nat, room);
    lemma_next_fit(state, *old(reject_budget) as nat, room);
    let packet = first.outcome->Ok_0->0;
    let stride = packet.payload_length as int;
    let more = receive::group_limit(room, stride, segments as int) - 1;
    lemma_group_sizes(first.state, first.budget, stride, more);
    let filled = receive::filled_slot(state, *old(reject_budget) as nat, room, segments as int);
    let bytes = receive::payload_of(first.state.buffer, packet)->Ok_0;
    let rest = receive::gathered_group(first.state, first.budget, stride, more).payloads;
    assert(filled.payloads == seq![bytes] + rest);
    assert forall|index: int| 0 <= index < filled.payloads.len() implies (#[trigger] filled.payloads[index]).len()
        == meta.stride by {
        if index > 0 {
            assert(filled.payloads[index] == rest[index - 1]);
        }
    }
}

proof fn lemma_next_fit(state: ReceiverModel, budget: nat, room: int)
    ensures
        receive::next_fit(state, budget, room).outcome matches Ok(Some(packet)) ==> packet.payload_length <= room,
    decreases receive::packets_left(state),
{
    let next = receive::next_packet(state, budget as int);
    if let Ok(Some(packet)) = next.outcome {
        if packet.payload_length > room {
            receive::lemma_next_progress(state, budget as int);
            lemma_next_fit(
                ReceiverModel { rejects: receive::counted(next.state.rejects), ..next.state },
                receive::budget_after_reject(next.budget) as nat,
                room,
            );
        }
    }
}

/// Each rejected packet uses up one of the budget, and the last one exhausts it.
pub proof fn law_each_reject_uses_one_of_the_budget(reject_budget: &mut usize, exhausted: bool)
    requires
        call_ensures(receive::reject_budget_exhausted, (reject_budget,), exhausted),
    ensures
        *old(reject_budget) > 0 ==> *final(reject_budget) == *old(reject_budget) - 1,
        *old(reject_budget) == 0 ==> *final(reject_budget) == 0,
        exhausted <==> *old(reject_budget) <= 1,
{
}

// ---------------------------------------------------------------------------
// The receive loop
// ---------------------------------------------------------------------------

/// A poll may fill as many slots as there are both buffers and entries, and reject 64 packets;
/// without a buffer or an entry there is none.
pub proof fn law_poll_fills_every_slot_it_was_given(buffers: usize, entries: usize, result: Result<RecvPoll, RawError>)
    requires
        call_ensures(RecvPoll::begin, (buffers, entries), result),
    ensures
        result is Ok <==> buffers > 0 && entries > 0,
        result matches Ok(poll) ==> poll.received == 0 && poll.reject_budget == 64 && poll.slots <= buffers
            && poll.slots
            <= entries && (poll.slots == buffers || poll.slots == entries),
        result matches Err(error) ==> error == RawError::NoReceiveBuffer,
{
}

/// A poll ends as soon as its last slot is filled, yields when too many packets were rejected,
/// waits for more packets when the batch is used up, and goes on filling otherwise.
pub proof fn law_poll_goes_on_while_there_is_room(
    poll: &mut RecvPoll,
    filled: bool,
    reject_budget: usize,
    step: RecvStep,
)
    requires
        old(poll).received < old(poll).slots,
        call_ensures(RecvPoll::after_slot, (poll, filled, reject_budget), step),
    ensures
        filled && old(poll).received + 1 == old(poll).slots ==> (step matches RecvStep::Return(count)
            && count == old(poll).slots),
        filled && old(poll).received + 1 < old(poll).slots ==> step is FillSlot,
        !filled && reject_budget == 0 ==> (step matches RecvStep::Yield(count) && count == old(poll).received),
        !filled && reject_budget > 0 ==> step is AwaitInput,
        filled ==> final(poll).received == old(poll).received + 1,
        !filled ==> final(poll).received == old(poll).received,
{
}

/// The same of a poll on a ring, which looks for further packets when its slots are full.
pub proof fn law_ring_poll_goes_on_while_there_is_room(
    poll: &mut RecvPoll,
    filled: bool,
    reject_budget: usize,
    step: RecvStep,
)
    requires
        old(poll).received < old(poll).slots,
        call_ensures(RecvPoll::after_ring_slot, (poll, filled, reject_budget), step),
    ensures
        filled && old(poll).received + 1 < old(poll).slots ==> step is FillSlot,
        !(filled && old(poll).received + 1 < old(poll).slots) ==> (if reject_budget == 0 {
            step matches RecvStep::Yield(count) && count == final(poll).received
        } else {
            step is AwaitInput
        }),
        filled ==> final(poll).received == old(poll).received + 1,
        !filled ==> final(poll).received == old(poll).received,
{
}

/// What was received is handed over before the poll waits: without more input a poll returns
/// what it has, and is pending only where it has nothing. A failure is a failure.
pub proof fn law_received_slots_do_not_wait(poll: &RecvPoll, event: InputEvent, step: RecvStep, ring_step: RecvStep)
    requires
        call_ensures(RecvPoll::after_input, (poll, event), step),
        call_ensures(RecvPoll::after_ring_input, (poll, event), ring_step),
    ensures
        event is Failed ==> step is Fail && ring_step is Fail,
        event is NotReady && poll.received > 0 ==> step == RecvStep::Return(poll.received) && ring_step
            == RecvStep::Return(poll.received),
        event is NotReady && poll.received == 0 ==> step is Pending && ring_step is Pending,
        event is WouldBlock && poll.received > 0 ==> step == RecvStep::Return(poll.received) && ring_step
            == RecvStep::Return(poll.received),
        event is WouldBlock && poll.received == 0 ==> step is FillSlot && ring_step is Pending,
        event matches InputEvent::Received(count) ==> {
            &&& count > 0 || poll.received == 0 ==> step is FillSlot
            &&& count == 0 && poll.received > 0 ==> step == RecvStep::Return(poll.received)
            &&& poll.received < poll.slots ==> ring_step is FillSlot
            &&& poll.received >= poll.slots ==> ring_step is AwaitInput
        },
{
}

// ---------------------------------------------------------------------------
// Rings
// ---------------------------------------------------------------------------

/// A frame of a ring is the host's when its lowest status bit is set. Its packet lies where
/// the ring says, as long as it lies within the frame; where a part was cut off and a copy
/// kept, the copy is as long as the whole packet.
pub proof fn law_ring_frame_lies_within_its_bounds(
    status: u32,
    snaplen: u32,
    packet_len: u32,
    mac: u16,
    frame_size: usize,
    frame: RingFrame,
)
    requires
        call_ensures(ring::ring_frame, (status, snaplen, packet_len, mac, frame_size), frame),
    ensures
        frame is Empty <==> status % 2 == 0,
        status % 2 == 1 && mac + snaplen > frame_size ==> frame is Broken,
        status % 2 == 1 && mac + snaplen <= frame_size
            ==> (frame matches RingFrame::Packet { start, end, copied } && start
            == mac && end == mac + snaplen && (copied is Some <==> status / 2 % 2 == 1 && snaplen < packet_len) && (
        copied matches Some(length) ==> length == packet_len)),
{
    assert((status & 1 != 0) == (status % 2 == 1)) by (bit_vector);
    assert((status & 2 != 0) == (status / 2 % 2 == 1)) by (bit_vector);
}

/// The frames of a ring come one after the other, and the first follows the last.
pub proof fn law_ring_goes_round(frame: usize, count: usize, next: usize)
    requires
        frame < count,
        call_ensures(ring::next_frame, (frame, count), next),
    ensures
        frame + 1 < count ==> next == frame + 1,
        frame + 1 == count ==> next == 0,
{
}

/// A packet of a ring that the carrier does not take, or whose datagram does not fit, is
/// skipped and counted; one whose datagram has the size of its group is copied to its place in
/// the slot, and nothing else in the slot changes; one of another size is put aside.
pub proof fn law_ring_packet_goes_to_its_place(
    inbound: &mut FakeTcpCarrier,
    packet: &[u8],
    slot: &mut [u8],
    offset: usize,
    expected: Option<usize>,
    storage: &mut [u8],
    decode_rejects: &mut u64,
    result: Result<RingPayloadCopy, RawError>,
    at: int,
)
    requires
        offset <= old(slot)@.len() <= usize::MAX / 2,
        0 <= at < old(slot)@.len(),
        call_ensures(
            ring::place_ring_packet,
            (inbound, packet, slot, offset, expected, storage, decode_rejects),
            result,
        ),
    ensures
        ({
            let outcome = carrier::datagram_in(old(inbound)@, packet@);
            let payload = outcome->Ok_0.payload;
            let same = expected is None || expected == Some(payload.len() as usize);
            &&& outcome is Err ==> result == Ok::<RingPayloadCopy, RawError>(RingPayloadCopy::Skipped)
            &&& outcome is Ok && same && offset + payload.len() <= old(slot)@.len() ==> {
                &&& result == Ok::<RingPayloadCopy, RawError>(RingPayloadCopy::Copied(payload.len() as usize))
                &&& final(slot)@[at] == (if offset <= at < offset + payload.len() {
                    payload[at - offset]
                } else {
                    old(slot)@[at]
                })
            }
            &&& outcome is Ok && same && offset + payload.len() > old(slot)@.len() ==> result == Ok::<
                RingPayloadCopy,
                RawError,
            >(RingPayloadCopy::Skipped)
            &&& outcome is Ok && !same ==> {
                if payload.len() <= old(slot)@.len() {
                    &&& result == Ok::<RingPayloadCopy, RawError>(RingPayloadCopy::Pending(payload.len() as usize))
                    &&& final(storage)@.take(payload.len() as int) == payload
                } else {
                    result == Ok::<RingPayloadCopy, RawError>(RingPayloadCopy::Skipped)
                }
            }
            &&& result == Ok::<RingPayloadCopy, RawError>(RingPayloadCopy::Skipped)
                ==> final(slot)@ == old(slot)@ && (*old(decode_rejects) < u64::MAX
                ==> *final(decode_rejects) == *old(decode_rejects) + 1)
            &&& result != Ok::<RingPayloadCopy, RawError>(RingPayloadCopy::Skipped)
                ==> *final(decode_rejects) == *old(decode_rejects)
        }),
{
    carrier::lemma_datagram_size(old(inbound)@, packet@);
    let outcome = carrier::datagram_in(old(inbound)@, packet@);
    if outcome is Ok {
        let payload = outcome->Ok_0.payload;
        if result matches Ok(RingPayloadCopy::Pending(_)) {
            assert(ring::overwritten(old(storage)@, 0, payload).take(payload.len() as int) =~= payload);
        }
    }
}

/// A group in a ring slot grows by one datagram at a time, each behind the others, all of one
/// size, and is told with their number times that size.
pub proof fn law_ring_group_grows_by_whole_datagrams(
    group: &mut RingSlot,
    length: usize,
    room: usize,
    reject_budget: &mut usize,
    pending: &mut Option<usize>,
    more: bool,
    before: usize,
    after: usize,
    meta: Option<SlotMeta>,
)
    requires
        old(group).wf(),
        old(group).count < usize::MAX,
        match old(group).stride {
            Some(stride) => length == stride && (old(group).count + 1) * stride <= room,
            None => length <= room,
        },
        call_ensures(RingSlot::offset, (&*old(group),), before),
        call_ensures(
            RingSlot::record,
            (group, Some(RingPayloadCopy::Copied(length)), room, reject_budget, pending),
            more,
        ),
        call_ensures(RingSlot::offset, (&*final(group),), after),
        call_ensures(RingSlot::finish, (&*final(group), *final(reject_budget)), meta),
    ensures
        more,
        after == before + length,
        final(group).count == old(group).count + 1,
        final(group).stride == Some(length),
        *old(reject_budget) > 0 ==> (meta matches Some(told) && told.len == after && told.stride == length),
        *final(pending) == *old(pending),
{
    let count = old(group).count as int;
    assert((count + 1) * length == count * length + length) by (nonlinear_arith);
    if old(group).stride is None {
        assert(0 * length == 0) by (nonlinear_arith);
    }
}

/// A new ring slot is empty and has room for a datagram; one that holds as many datagrams as
/// it may, or that another one would not fit, has none.
pub proof fn law_ring_slot_has_room_until_full(
    fresh: RingSlot,
    group: &RingSlot,
    room: usize,
    segments: usize,
    empty: Result<bool, RawError>,
    result: Result<bool, RawError>,
    meta: Option<SlotMeta>,
)
    requires
        call_ensures(RingSlot::new, (), fresh),
        segments > 0,
        call_ensures(RingSlot::has_room, (&fresh, room, segments), empty),
        call_ensures(RingSlot::finish, (&fresh, 1usize), meta),
        call_ensures(RingSlot::has_room, (group, room, segments), result),
    ensures
        empty == Ok::<bool, RawError>(true),
        meta is None,
        group.count >= segments ==> result == Ok::<bool, RawError>(false),
        group.count < segments && group.stride is None ==> result == Ok::<bool, RawError>(true),
        group.count < segments && (group.stride matches Some(stride) && (group.count + 1) * stride <= usize::MAX)
            ==> result == Ok::<bool, RawError>((group.count + 1) * group.stride->0 <= room),
{
}

/// A datagram that was put aside starts the next group where it fits; otherwise it is skipped
/// and counted.
pub proof fn law_datagram_put_aside_is_not_lost(
    group: &RingSlot,
    length: usize,
    slot: &mut [u8],
    storage: &[u8],
    decode_rejects: &mut u64,
    copy: RingPayloadCopy,
)
    requires
        group.count == 0,
        length <= storage@.len(),
        call_ensures(RingSlot::take_pending, (group, length, slot, storage, decode_rejects), copy),
    ensures
        length <= old(slot)@.len() ==> copy == RingPayloadCopy::Copied(length) && final(slot)@.take(length as int)
            == storage@.take(length as int) && *final(decode_rejects) == *old(decode_rejects),
        length > old(slot)@.len() ==> copy is Skipped && final(slot)@ == old(slot)@,
{
    assert((group.count + 1) * length == length) by (nonlinear_arith)
        requires
            group.count == 0,
    ;
    assert(group.count * length == 0) by (nonlinear_arith)
        requires
            group.count == 0,
    ;
    if length <= old(slot)@.len() {
        let part = storage@.take(length as int);
        assert(ring::overwritten(old(slot)@, 0, part).take(length as int) =~= part);
    }
}

// ---------------------------------------------------------------------------
// System calls
// ---------------------------------------------------------------------------

/// A packet that is sent through a raw IP socket goes without its first twenty bytes, which the
/// system writes itself; through a packet socket it goes whole. Packets lie one capacity apart.
pub proof fn law_wire_packet_lies_in_its_place(
    stored: usize,
    capacity: usize,
    index: usize,
    length: usize,
    mode: RawSendMode,
    result: Result<(usize, usize), RawError>,
)
    requires
        index * capacity + length <= stored,
        call_ensures(batch::wire_packet, (stored, capacity, index, length, mode), result),
    ensures
        mode is Packet ==> (result matches Ok((start, end)) && start == index * capacity && end == start + length),
        mode is Ip && length >= 20 ==> (result matches Ok((start, end)) && start == index * capacity + 20 && end + 20
            == start + length),
        mode is Ip && length < 20 ==> result == Err::<(usize, usize), RawError>(RawError::MissingIpv4Header),
{
}

/// A packet that does not lie within the storage is not sent.
pub proof fn law_packet_outside_the_storage_is_not_sent(
    stored: usize,
    capacity: usize,
    index: usize,
    length: usize,
    mode: RawSendMode,
    result: Result<(usize, usize), RawError>,
)
    requires
        index * capacity + length > stored,
        call_ensures(batch::wire_packet, (stored, capacity, index, length, mode), result),
    ensures
        result is Err,
{
}

proof fn lemma_wire_ranges(
    stored: int,
    capacity: int,
    lengths: Seq<usize>,
    first: int,
    count: int,
    mode: RawSendMode,
    index: int,
)
    requires
        0 <= index < count,
    ensures
        batch::wire_ranges(stored, capacity, lengths, first, count, mode) matches Ok(ranges) ==> ranges.len() == count
            && (batch::wire_range(stored, capacity, first + index, lengths[first + index] as int, mode) matches Ok((
            start,
            end,
        )) && ranges[index] == (start as usize, end as usize)),
    decreases count,
{
    if batch::wire_ranges(stored, capacity, lengths, first, count, mode) is Ok {
        if count > 1 {
            if index < count - 1 {
                lemma_wire_ranges(stored, capacity, lengths, first, count - 1, mode, index);
            } else {
                lemma_wire_ranges(stored, capacity, lengths, first, count - 1, mode, 0);
            }
        }
    }
}

/// One system call takes as many packets as are left, but no more than its limit, and in
/// order: the first is the first that was not sent.
pub proof fn law_wire_batch_goes_on_where_it_stopped(
    stored: usize,
    capacity: usize,
    lengths: &[usize],
    first: usize,
    limit: usize,
    mode: RawSendMode,
    ranges: Vec<(usize, usize)>,
    index: int,
)
    requires
        first < lengths@.len(),
        0 <= index < ranges@.len(),
        call_ensures(
            batch::wire_batch,
            (stored, capacity, lengths, first, limit, mode),
            Ok::<Vec<(usize, usize)>, RawError>(ranges),
        ),
    ensures
        ranges@.len() <= limit,
        ranges@.len() <= lengths@.len() - first,
        ranges@.len() == limit || ranges@.len() == lengths@.len() - first,
        mode is Packet ==> ranges@[index].0 == (first + index) * capacity && ranges@[index].1 == (first + index)
            * capacity + lengths@[first + index],
        mode is Ip ==> ranges@[index].0 == (first + index) * capacity + 20 && ranges@[index].1 == (first + index)
            * capacity + lengths@[first + index],
        ranges@[index].1 <= stored,
{
    let count = batch::window(lengths@.len() as int, first as int, limit as int);
    lemma_wire_ranges(stored as int, capacity as int, lengths@, first as int, count, mode, 0);
    if index < count {
        lemma_wire_ranges(stored as int, capacity as int, lengths@, first as int, count, mode, index);
    }
}

/// A call that took less than a whole packet is an error; otherwise as many packets were sent
/// as it took.
pub proof fn law_packets_are_sent_whole(
    ranges: &[(usize, usize)],
    taken: &[usize],
    result: Result<usize, RawError>,
    index: int,
)
    requires
        taken@.len() <= ranges@.len() <= usize::MAX,
        call_ensures(batch::sent_packets, (ranges, taken), result),
        0 <= index < taken@.len(),
    ensures
        result matches Ok(count) ==> count == taken@.len() && taken@[index] == ranges@[index].1 - ranges@[index].0,
        taken@[index] != ranges@[index].1 - ranges@[index].0 ==> result == Err::<usize, RawError>(
            RawError::PartiallySent,
        ),
{
}

/// Each received packet has 65535 bytes of its own, one behind the other, and a packet that
/// was cut off counts as empty.
pub proof fn law_receive_slots_do_not_overlap(
    stored: usize,
    count: usize,
    result: Result<Vec<(usize, usize)>, RawError>,
    index: int,
    length: u32,
    truncated: bool,
    recorded: usize,
)
    requires
        call_ensures(batch::receive_slots, (stored, count), result),
        call_ensures(batch::received_length, (length, truncated), recorded),
        0 <= index < count,
    ensures
        result is Ok <==> count * 65535 <= stored,
        result matches Ok(slots) ==> slots@.len() == count && slots@[index].0 == index * 65535 && slots@[index].1
            == index * 65535 + 65535,
        truncated ==> recorded == 0,
        !truncated ==> recorded == length,
{
}

// ---------------------------------------------------------------------------
// Filters and routes
// ---------------------------------------------------------------------------

/// The filter of an IPv4 path lets a packet through exactly where it is an IPv4 packet that
/// carries TCP without IP options, from the peer's address and port to the own ones, with SYN
/// or PSH set. A path of IPv6 addresses has no filter.
pub proof fn law_filter_lets_only_the_peer_through(
    given: FourTuple,
    peer: u32,
    local: u32,
    program: Result<Vec<FilterInstruction>, RawError>,
    packet: Seq<u8>,
)
    requires
        call_ensures(filter::tuple_filter, (given,), program),
        given.destination.ip == IpAddress::V4(peer),
        given.source.ip == IpAddress::V4(local),
    ensures
        program is Ok,
        filter::filtered(program->Ok_0@, 0, 0, packet) > 0 <==> {
            &&& packet.len() >= 34
            &&& packet[0] / 16 == 4
            &&& packet[9] == 6
            &&& endian::be32_at(packet, 12) == peer
            &&& endian::be32_at(packet, 16) == local
            &&& reading::word(packet, 20) == given.destination.port
            &&& reading::word(packet, 22) == given.source.port
            &&& packet[33] / 2 % 2 == 1 || packet[33] / 8 % 2 == 1
        },
{
    filter::law_filter_keeps_the_peer(peer, given.destination.port, local, given.source.port, packet);
    if packet.len() >= 34 {
        let first = packet[0];
        let flags = packet[33];
        assert((first as u32 & 0xf0 == 0x40) == (first / 16 == 4)) by (bit_vector);
        assert((flags as u32 & 0x0a != 0) == (flags / 2 % 2 == 1 || flags / 8 % 2 == 1)) by (bit_vector);
    }
}

/// An address of 127.0.0.0/8 is on this machine; every other IPv4 address is routed as it is,
/// and none of IPv6. A route without a gateway leads to the destination itself.
pub proof fn law_loopback_is_not_routed(
    destination: SocketAddress,
    result: Result<PacketRoute, RawError>,
    target: u32,
    gateway: u32,
    hop: u32,
)
    requires
        call_ensures(route::packet_route, (destination,), result),
        call_ensures(route::next_hop, (target, gateway), hop),
    ensures
        destination.ip matches IpAddress::V4(address) ==> (if 0x7f00_0000 <= address <= 0x7fff_ffff {
            result == Ok::<PacketRoute, RawError>(PacketRoute::Loopback)
        } else {
            result == Ok::<PacketRoute, RawError>(PacketRoute::Routed(address))
        }),
        destination.ip is V6 ==> result == Err::<PacketRoute, RawError>(RawError::Unsupported),
        gateway == 0 ==> hop == target,
        gateway != 0 ==> hop == gateway,
{
}

/// A hardware address has six bytes, not all of them zero.
pub proof fn law_hardware_address_has_six_bytes(address: &[u8], length: u8)
    requires
        address@.len() == 6,
        call_ensures(route::hardware_length, (address,), length),
    ensures
        length == 0 <==> forall|index: int| 0 <= index < 6 ==> #[trigger] address@[index] == 0,
        length == 0 || length == 6,
{
    if forall|index: int| 0 <= index < 6 ==> #[trigger] address@[index] == 0 {
        assert(address@ =~= seq![0u8, 0, 0, 0, 0, 0]);
    } else if address@ == seq![0u8, 0, 0, 0, 0, 0] {
        assert forall|index: int| 0 <= index < 6 implies #[trigger] address@[index] == 0 by {}
    }
}

/// A hexadecimal number is read digit by digit, the highest first, in either case, and is
/// refused where it has no digit, another character, or a value above the limit.
pub proof fn law_hexadecimal_digits_are_read_in_order(digits: Seq<char>, digit: char)
    ensures
        lines::hex_value(digits.push(digit)) == (match (lines::hex_value(digits), lines::hex_digit(digit)) {
            (Some(high), Some(low)) => Some(high * 16 + low),
            _ => None,
        }),
        '0' <= digit <= '9' ==> lines::hex_digit(digit) == Some(digit as int - '0' as int),
        'a' <= digit <= 'f' ==> lines::hex_digit(digit) == Some(digit as int - 'a' as int + 10),
        'A' <= digit <= 'F' ==> lines::hex_digit(digit) == Some(digit as int - 'A' as int + 10),
        !('0' <= digit <= '9' || 'a' <= digit <= 'f' || 'A' <= digit <= 'F') ==> lines::hex_digit(digit) is None,
{
    assert(digits.push(digit).drop_last() =~= digits);
}

// ---------------------------------------------------------------------------
// The adapter
// ---------------------------------------------------------------------------

/// A packet that the carrier takes and whose datagram fits fills the buffer; every other one
/// is counted, and after 64 of them in a row the adapter yields.
pub proof fn law_adapter_fills_or_counts(
    receiver: &mut PacketReceiver,
    packet: &[u8],
    output: &mut [u8],
    rejects: &mut usize,
    step: PacketStep,
)
    requires
        old(receiver).decode_rejects < u64::MAX,
        *old(rejects) < 64,
        call_ensures(PacketReceiver::receive, (receiver, packet, output, rejects), step),
    ensures
        ({
            let outcome = carrier::datagram_in(old(receiver).inbound@, packet@);
            if outcome is Ok && outcome->Ok_0.payload.len() <= old(output)@.len() {
                &&& step == PacketStep::Filled(outcome->Ok_0.payload.len() as usize)
                &&& final(output)@.take(outcome->Ok_0.payload.len() as int) == outcome->Ok_0.payload
                &&& *final(rejects) == *old(rejects)
            } else {
                &&& step is Yield <==> *old(rejects) == 63
                &&& step is Again <==> *old(rejects) < 63
                &&& final(output)@ == old(output)@
                &&& *final(rejects) == *old(rejects) + 1
                &&& final(receiver).decode_rejects == old(receiver).decode_rejects + 1
            }
        }),
{
    carrier::lemma_datagram_size(old(receiver).inbound@, packet@);
    let outcome = carrier::datagram_in(old(receiver).inbound@, packet@);
    if outcome is Ok && outcome->Ok_0.payload.len() <= old(output)@.len() {
        let payload = outcome->Ok_0.payload;
        assert((payload + old(output)@.skip(payload.len() as int)).take(payload.len() as int) =~= payload);
    }
}

/// A file of the adapter is trusted only where its digest is the expected one, it is the file
/// that was opened, in its place, and no link.
pub proof fn law_only_the_expected_file_is_trusted(
    contents: &[u8],
    expected: &[u8],
    verified: Result<(), RawError>,
    same_path: bool,
    loaded: windivert::FileIdentity,
    held: windivert::FileIdentity,
    placed: Result<(), RawError>,
    absolute: bool,
    in_application_directory: bool,
    is_file: bool,
    found: Result<(), RawError>,
    wants_directory: bool,
    is_directory: bool,
    reparse_point: bool,
    opened: Result<(), RawError>,
)
    requires
        contents@.len() <= crate::crypto::MAX_DIGEST_INPUT,
        call_ensures(windivert::verify_sha256, (contents, expected), verified),
        call_ensures(windivert::verify_loaded_path, (same_path, loaded, held), placed),
        call_ensures(windivert::check_library_place, (absolute, in_application_directory, is_file), found),
        call_ensures(windivert::check_opened, (wants_directory, is_directory, is_file, reparse_point), opened),
    ensures
        verified is Ok <==> expected@ == crate::crypto::sha256_of(contents@),
        placed is Ok <==> same_path && loaded.volume == held.volume && loaded.identifier@ == held.identifier@,
        found is Ok <==> absolute && in_application_directory && is_file,
        reparse_point ==> opened is Err,
        !reparse_point && wants_directory ==> (opened is Ok <==> is_directory),
        !reparse_point && !wants_directory ==> (opened is Ok <==> is_file),
{
}

/// A datagram for the adapter is cut as for a sender, into packets with room for 80 bytes of
/// headers; an empty one is refused.
pub proof fn law_adapter_plans_every_segment(
    given: FourTuple,
    destination: SocketAddress,
    source: Option<IpAddress>,
    length: usize,
    segment_size: Option<usize>,
    result: Result<windivert::SegmentPlan, RawError>,
)
    requires
        destination == given.destination,
        source matches Some(ip) ==> ip == given.source.ip,
        length <= usize::MAX - 80,
        segment_size matches Some(size) ==> size <= usize::MAX - 80,
        call_ensures(windivert::plan_segments, (given, destination, source, length, segment_size), result),
    ensures
        result is Ok <==> length > 0 && segment_size != Some(0usize),
        result matches Ok(plan) ==> {
            &&& plan.capacity == plan.size + 80
            &&& segment_size matches Some(size) ==> plan.size == size
            &&& segment_size is None ==> plan.size == length
            &&& plan.count == crate::raw::send::segments_of(length as int, plan.size as int) as usize
        },
        result matches Err(error) ==> error == RawError::InvalidSegmentation,
{
}

/// A packet is forwarded where it is not empty and fits, and was injected where all of it was.
pub proof fn law_packets_are_forwarded_whole(
    length: usize,
    room: usize,
    forwarded: bool,
    sent: u32,
    given: u32,
    result: Result<(), RawError>,
)
    requires
        call_ensures(windivert::forwards, (length, room), forwarded),
        call_ensures(windivert::check_injected, (sent, given), result),
    ensures
        forwarded <==> length > 0 && length <= room,
        result is Ok <==> sent == given,
{
}

// ---------------------------------------------------------------------------
// Filling slots
// ---------------------------------------------------------------------------

/// A datagram that was put aside and fits the slot is the first that fills it, though it takes
/// all of its room.
pub proof fn law_fitting_datagram_fills_the_slot(
    receiver: &mut BatchReceiver,
    slot: &mut [u8],
    segments: usize,
    reject_budget: &mut usize,
    packet: DecodedRawPacket,
    bytes: Seq<u8>,
    result: Result<Option<SlotMeta>, RawError>,
)
    requires
        old(receiver)@.pending == Some(packet),
        *old(reject_budget) > 0,
        packet.payload_length <= old(slot)@.len(),
        receive::payload_of(old(receiver)@.buffer, packet) == Ok::<Seq<u8>, RawError>(bytes),
        call_ensures(BatchReceiver::fill_slot, (receiver, slot, segments, reject_budget), result),
    ensures
        result matches Ok(Some(meta)) && meta.stride == packet.payload_length || result is Err,
        final(slot)@.take(bytes.len() as int) == bytes,
{
    let state = old(receiver)@;
    let room = old(slot)@.len() as int;
    let first = receive::next_fit(state, *old(reject_budget) as nat, room);
    let filled = receive::filled_slot(state, *old(reject_budget) as nat, room, segments as int);
    let stride = packet.payload_length as int;
    let rest = receive::gathered_group(
        first.state,
        first.budget,
        stride,
        receive::group_limit(room, stride, segments as int) - 1,
    ).payloads;
    assert(filled.payloads == seq![bytes] + rest);
    assert(filled.payloads.drop_first() =~= rest);
    assert(filled.payloads.flatten() == bytes + rest.flatten());
    assert(final(slot)@.take(bytes.len() as int) =~= bytes);
}

proof fn lemma_batch_used_up(state: ReceiverModel, budget: int)
    ensures
        receive::next_in_batch(state, budget).outcome matches Ok(None) ==> {
            let next = receive::next_in_batch(state, budget);
            next.state.index >= next.state.count || next.budget == 0
        },
    decreases state.count - state.index,
{
    if state.index < state.count {
        let rejected = ReceiverModel { index: state.index + 1, rejects: receive::counted(state.rejects), ..state };
        lemma_batch_used_up(rejected, receive::budget_after_reject(budget));
    }
}

/// Whether a receiver has no further datagram of a size to give at once.
pub open spec fn has_no_more(state: ReceiverModel, budget: int, stride: int) -> bool {
    ||| budget == 0
    ||| state.index >= state.count
    ||| state.pending matches Some(other) && other.payload_length != stride
}

proof fn lemma_group_goes_on(state: ReceiverModel, budget: int, stride: int, more: int)
    requires
        more >= 0,
    ensures
        ({
            let group = receive::gathered_group(state, budget, stride, more);
            group.error is None && group.payloads.len() < more ==> has_no_more(group.state, group.budget, stride)
        }),
    decreases more,
{
    if more > 0 {
        let next = receive::next_packet(state, budget);
        lemma_batch_used_up(state, budget);
        if let Ok(Some(packet)) = next.outcome {
            if packet.payload_length == stride {
                if let Ok(bytes) = receive::payload_of(next.state.buffer, packet) {
                    lemma_group_goes_on(next.state, next.budget, stride, more - 1);
                }
            }
        }
    }
}

/// A slot is filled as far as it goes: it holds as many datagrams as it may, or no further one
/// would fit, or the receiver has no further one of that size to give at once.
pub proof fn law_slot_is_filled_as_far_as_it_goes(
    receiver: &mut BatchReceiver,
    slot: &mut [u8],
    segments: usize,
    reject_budget: &mut usize,
    meta: SlotMeta,
)
    requires
        segments >= 1,
        meta.stride > 0,
        call_ensures(
            BatchReceiver::fill_slot,
            (receiver, slot, segments, reject_budget),
            Ok::<Option<SlotMeta>, RawError>(Some(meta)),
        ),
    ensures
        ({
            let filled = receive::filled_slot(
                old(receiver)@,
                *old(reject_budget) as nat,
                old(slot)@.len() as int,
                segments as int,
            );
            let count = filled.payloads.len() as int;
            ||| count == segments
            ||| (count + 1) * meta.stride > old(slot)@.len()
            ||| has_no_more(final(receiver)@, *final(reject_budget) as int, meta.stride as int)
        }),
{
    let state = old(receiver)@;
    let room = old(slot)@.len() as int;
    let first = receive::next_fit(state, *old(reject_budget) as nat, room);
    let packet = first.outcome->Ok_0->0;
    let stride = packet.payload_length as int;
    let limit = receive::group_limit(room, stride, segments as int);
    lemma_group_sizes(first.state, first.budget, stride, limit - 1);
    lemma_group_goes_on(first.state, first.budget, stride, limit - 1);
    let q = room / stride;
    assert((q + 1) * stride > room) by (nonlinear_arith)
        requires
            q == room / stride,
            stride > 0,
    ;
    if limit == 1 && q < 1 {
        assert((1 + 1) * stride > room) by (nonlinear_arith)
            requires
                (q + 1) * stride > room,
                q < 1,
                stride > 0,
        ;
    }
}

} // verus!
