//! Decoding batches of received packets into groups of equal-sized datagrams.
use crate::faketcp::carrier;
use crate::faketcp::carrier::{CarrierModel, FakeTcpCarrier};
use crate::faketcp::encode::put;
use crate::raw::error::RawError;
use vstd::prelude::*;

verus! {

/// The room that one received packet has in the receive storage.
pub const RAW_PACKET_BUFFER_BYTES: usize = 65535;

/// How many packets one receive call may reject before it yields.
pub const MAX_DECODE_REJECTS_PER_POLL: usize = 64;

/// The largest batch of packets that one system call receives.
pub const MAX_RECV_BATCH: usize = 64;

/// What is left of a budget after one more rejection.
pub open spec fn budget_after_reject(budget: int) -> int {
    if budget <= 1 {
        0
    } else {
        budget - 1
    }
}

/// Counts one rejected packet, and says whether the budget is used up.
pub fn reject_budget_exhausted(reject_budget: &mut usize) -> (exhausted: bool)
    ensures
        *final(reject_budget) == budget_after_reject(*old(reject_budget) as int),
        exhausted == (*final(reject_budget) == 0),
{
    *reject_budget = reject_budget.saturating_sub(1);
    *reject_budget == 0
}

/// Where the payload of a received packet lies.
#[derive(Clone, Copy, Debug, PartialEq, Eq, Structural)]
pub struct DecodedRawPacket {
    pub batch_index: usize,
    pub payload_offset: usize,
    pub payload_length: usize,
}

/// The receiving half of a raw socket: a batch of packets and the carrier that decodes
/// them. The adapter fills the buffer and the lengths.
#[derive(Debug)]
pub struct BatchReceiver {
    pub inbound: FakeTcpCarrier,
    pub receive_buffer: Vec<u8>,
    pub batch_count: usize,
    pub batch_index: usize,
    pub batch_lengths: Vec<usize>,
    pub pending: Option<DecodedRawPacket>,
    pub decode_rejects: u64,
}

/// The content of a [`BatchReceiver`].
pub struct ReceiverModel {
    pub carrier: CarrierModel,
    pub buffer: Seq<u8>,
    pub count: int,
    pub index: int,
    pub lengths: Seq<usize>,
    pub pending: Option<DecodedRawPacket>,
    pub rejects: u64,
}

impl View for BatchReceiver {
    type V = ReceiverModel;

    open spec fn view(&self) -> ReceiverModel {
        ReceiverModel {
            carrier: self.inbound@,
            buffer: self.receive_buffer@,
            count: self.batch_count as int,
            index: self.batch_index as int,
            lengths: self.batch_lengths@,
            pending: self.pending,
            rejects: self.decode_rejects,
        }
    }
}

/// A counter after one more event; it saturates.
pub open spec fn counted(count: u64) -> u64 {
    if count == u64::MAX {
        count
    } else {
        (count + 1) as u64
    }
}

/// What a look for the next packet yields.
pub struct NextModel {
    pub outcome: Result<Option<DecodedRawPacket>, RawError>,
    pub state: ReceiverModel,
    pub budget: int,
}

/// The next packet of the batch that decodes; those that do not are rejected, until the
/// budget is used up.
pub open spec fn next_in_batch(state: ReceiverModel, budget: int) -> NextModel
    decreases state.count - state.index,
{
    if state.index >= state.count {
        NextModel { outcome: Ok(None), state, budget }
    } else {
        let length = state.lengths[state.index] as int;
        let start = state.index * RAW_PACKET_BUFFER_BYTES;
        let advanced = ReceiverModel { index: state.index + 1, ..state };
        if start + length > usize::MAX {
            NextModel { outcome: Err(RawError::PacketLengthOverflow), state: advanced, budget }
        } else if start + length > state.buffer.len() {
            NextModel { outcome: Err(RawError::PacketExceedsStorage), state: advanced, budget }
        } else {
            match carrier::datagram_in(state.carrier, state.buffer.subrange(start, start + length)) {
                Ok(view) => NextModel {
                    outcome: Ok(
                        Some(
                            DecodedRawPacket {
                                batch_index: state.index as usize,
                                payload_offset: (length - view.payload.len()) as usize,
                                payload_length: view.payload.len() as usize,
                            },
                        ),
                    ),
                    state: ReceiverModel { carrier: carrier::after_receiving(state.carrier, view), ..advanced },
                    budget,
                },
                Err(_) => {
                    let rejected = ReceiverModel { rejects: counted(state.rejects), ..advanced };
                    let left = budget_after_reject(budget);
                    if left == 0 {
                        NextModel { outcome: Ok(None), state: rejected, budget: left }
                    } else {
                        next_in_batch(rejected, left)
                    }
                },
            }
        }
    }
}

/// The next packet: the one that was put back, or the next of the batch that decodes.
/// With no budget left there is none.
pub open spec fn next_packet(state: ReceiverModel, budget: int) -> NextModel {
    if budget == 0 {
        NextModel { outcome: Ok(None), state, budget }
    } else {
        match state.pending {
            Some(packet) => NextModel {
                outcome: Ok(Some(packet)),
                state: ReceiverModel { pending: None, ..state },
                budget,
            },
            None => next_in_batch(state, budget),
        }
    }
}

/// The bytes of a payload in the receive storage, or why there are none.
pub open spec fn payload_of(buffer: Seq<u8>, packet: DecodedRawPacket) -> Result<Seq<u8>, RawError> {
    let start = packet.batch_index * RAW_PACKET_BUFFER_BYTES + packet.payload_offset;
    let end = start + packet.payload_length;
    if start > usize::MAX {
        Err(RawError::PayloadOffsetOverflow)
    } else if end > usize::MAX {
        Err(RawError::PayloadLengthOverflow)
    } else if end > buffer.len() {
        Err(RawError::PayloadExceedsStorage)
    } else {
        Ok(buffer.subrange(start, end))
    }
}

impl ReceiverModel {
    /// The batch is within its bounds.
    pub open spec fn valid(self) -> bool {
        &&& 0 <= self.index
        &&& self.count <= self.lengths.len() <= MAX_RECV_BATCH
        &&& self.pending matches Some(packet) ==> packet.batch_index < MAX_RECV_BATCH
    }
}

impl BatchReceiver {
    /// The batch is within its bounds and the carrier is well formed.
    pub open spec fn wf(&self) -> bool {
        self@.valid() && self.inbound.wf()
    }

    /// Number of underlay packets that failed carrier decode and were dropped.
    pub fn rejected_datagrams(&self) -> (rejects: u64)
        ensures
            rejects == self@.rejects,
    {
        self.decode_rejects
    }

    /// Finds the next packet that decodes.
    pub fn next_decoded_packet(&mut self, reject_budget: &mut usize) -> (result: Result<
        Option<DecodedRawPacket>,
        RawError,
    >)
        requires
            old(self).wf(),
        ensures
            final(self).wf(),
            ({
                let next = next_packet(old(self)@, *old(reject_budget) as int);
                &&& result == next.outcome
                &&& final(self)@ == next.state
                &&& *final(reject_budget) == next.budget
            }),
            result matches Ok(Some(packet)) ==> packet.batch_index < MAX_RECV_BATCH,
    {
        if *reject_budget == 0 {
            return Ok(None);
        }
        let ghost begun = self@;
        if let Some(packet) = self.pending {
            self.pending = None;
            return Ok(Some(packet));
        }
        let ghost start_budget = *reject_budget as int;
        while self.batch_index < self.batch_count
            invariant
                self.wf(),
                self.pending is None,
                *reject_budget > 0,
                next_in_batch(begun, start_budget) == next_in_batch(self@, *reject_budget as int),
                begun == old(self)@,
                start_budget == *old(reject_budget),
                start_budget > 0,
                begun.pending is None,
            decreases self.batch_count - self.batch_index,
        {
            let batch_index: usize = self.batch_index;
            let ghost current = self@;
            self.batch_index = batch_index + 1;
            let length: usize = self.batch_lengths[batch_index];
            let start: usize = batch_index * RAW_PACKET_BUFFER_BYTES;
            let end: usize = match start.checked_add(length) {
                Some(end) => end,
                None => {
                    return Err(RawError::PacketLengthOverflow);
                },
            };
            if end > self.receive_buffer.len() {
                return Err(RawError::PacketExceedsStorage);
            }
            let packet: &[u8] = vstd::slice::slice_subrange(self.receive_buffer.as_slice(), start, end);
            match self.inbound.decode_datagram_borrowed(packet) {
                Ok(decoded) => {
                    let payload_length: usize = decoded.payload.len();
                    return Ok(
                        Some(
                            DecodedRawPacket {
                                batch_index,
                                payload_offset: length - payload_length,
                                payload_length,
                            },
                        ),
                    );
                },
                Err(_) => {
                    self.decode_rejects = self.decode_rejects.saturating_add(1);
                    if reject_budget_exhausted(reject_budget) {
                        return Ok(None);
                    }
                },
            }
        }
        Ok(None)
    }

    /// The bytes of a decoded payload.
    pub fn decoded_payload(&self, packet: DecodedRawPacket) -> (result: Result<&[u8], RawError>)
        requires
            packet.batch_index < MAX_RECV_BATCH,
        ensures
            match result {
                Ok(slice) => payload_of(self@.buffer, packet) == Ok::<Seq<u8>, RawError>(slice@),
                Err(error) => payload_of(self@.buffer, packet) == Err::<Seq<u8>, RawError>(error),
            },
    {
        let packet_start: usize = packet.batch_index * RAW_PACKET_BUFFER_BYTES;
        let start: usize = match packet_start.checked_add(packet.payload_offset) {
            Some(start) => start,
            None => {
                return Err(RawError::PayloadOffsetOverflow);
            },
        };
        let end: usize = match start.checked_add(packet.payload_length) {
            Some(end) => end,
            None => {
                return Err(RawError::PayloadLengthOverflow);
            },
        };
        if end > self.receive_buffer.len() {
            return Err(RawError::PayloadExceedsStorage);
        }
        Ok(vstd::slice::slice_subrange(self.receive_buffer.as_slice(), start, end))
    }
}

// ---------------------------------------------------------------------------
// Groups of equal-sized datagrams
// ---------------------------------------------------------------------------

/// How many packets a receiver still has at most.
pub open spec fn packets_left(state: ReceiverModel) -> int {
    (if state.index < state.count {
        state.count - state.index
    } else {
        0
    }) + (if state.pending is Some {
        1int
    } else {
        0
    })
}

/// A look for the next packet uses packets up and touches neither the buffer nor the
/// lengths.
pub proof fn lemma_next_progress(state: ReceiverModel, budget: int)
    requires
        budget >= 0,
    ensures
        ({
            let next = next_packet(state, budget);
            &&& packets_left(next.state) <= packets_left(state)
            &&& next.outcome matches Ok(Some(_)) ==> packets_left(next.state) < packets_left(state)
            &&& next.state.buffer == state.buffer
            &&& next.state.lengths == state.lengths
            &&& next.state.count == state.count
            &&& 0 <= next.budget <= budget
        }),
{
    lemma_batch_progress(state, budget);
}

proof fn lemma_batch_progress(state: ReceiverModel, budget: int)
    requires
        budget >= 0,
    ensures
        ({
            let next = next_in_batch(state, budget);
            &&& next.state.index >= state.index
            &&& next.state.pending == state.pending
            &&& next.outcome matches Ok(Some(_)) ==> next.state.index > state.index && next.state.index
                <= state.count
            &&& next.state.buffer == state.buffer
            &&& next.state.lengths == state.lengths
            &&& next.state.count == state.count
            &&& 0 <= next.budget <= budget
        }),
    decreases state.count - state.index,
{
    if state.index < state.count {
        let advanced = ReceiverModel { index: state.index + 1, ..state };
        let rejected = ReceiverModel { rejects: counted(state.rejects), ..advanced };
        lemma_batch_progress(rejected, budget_after_reject(budget));
    }
}

/// The next packet whose payload fits in `room` bytes; larger ones are rejected.
pub open spec fn next_fit(state: ReceiverModel, budget: nat, room: int) -> NextModel
    decreases packets_left(state),
{
    let next = next_packet(state, budget as int);
    match next.outcome {
        Ok(Some(packet)) => if packet.payload_length > room {
            proof {
                lemma_next_progress(state, budget as int);
            }
            next_fit(
                ReceiverModel { rejects: counted(next.state.rejects), ..next.state },
                budget_after_reject(next.budget) as nat,
                room,
            )
        } else {
            next
        },
        _ => next,
    }
}

/// What gathering more packets of one size yields.
pub struct GroupModel {
    pub payloads: Seq<Seq<u8>>,
    pub error: Option<RawError>,
    pub state: ReceiverModel,
    pub budget: int,
}

/// Up to `more` further payloads of `stride` bytes; a packet of another size is put back.
pub open spec fn gathered_group(state: ReceiverModel, budget: int, stride: int, more: int) -> GroupModel
    decreases more,
{
    if more <= 0 {
        GroupModel { payloads: Seq::empty(), error: None, state, budget }
    } else {
        let next = next_packet(state, budget);
        match next.outcome {
            Err(error) => GroupModel {
                payloads: Seq::empty(),
                error: Some(error),
                state: next.state,
                budget: next.budget,
            },
            Ok(None) => GroupModel { payloads: Seq::empty(), error: None, state: next.state, budget: next.budget },
            Ok(Some(packet)) => if packet.payload_length != stride {
                GroupModel {
                    payloads: Seq::empty(),
                    error: None,
                    state: ReceiverModel { pending: Some(packet), ..next.state },
                    budget: next.budget,
                }
            } else {
                match payload_of(next.state.buffer, packet) {
                    Err(error) => GroupModel {
                        payloads: Seq::empty(),
                        error: Some(error),
                        state: next.state,
                        budget: next.budget,
                    },
                    Ok(bytes) => {
                        let rest = gathered_group(next.state, next.budget, stride, more - 1);
                        GroupModel { payloads: seq![bytes] + rest.payloads, ..rest }
                    },
                }
            },
        }
    }
}

/// The number of datagrams of `stride` bytes that go into `room` bytes, between one and
/// `segments`.
pub open spec fn group_limit(room: int, stride: int, segments: int) -> int {
    let fitting = room / (if stride < 1 {
        1
    } else {
        stride
    });
    if fitting < 1 {
        1
    } else if fitting > segments {
        segments
    } else {
        fitting
    }
}

/// One filled receive slot: how many bytes, in datagrams of which size.
#[derive(Clone, Copy, Debug, PartialEq, Eq, Structural)]
pub struct SlotMeta {
    pub len: usize,
    pub stride: usize,
}

/// What filling one receive slot yields.
pub struct SlotModel {
    pub outcome: Result<Option<SlotMeta>, RawError>,
    pub payloads: Seq<Seq<u8>>,
    pub state: ReceiverModel,
    pub budget: int,
}

/// One receive slot of `room` bytes: the next datagram that fits, and those of the same
/// size that follow it directly.
pub open spec fn filled_slot(state: ReceiverModel, budget: nat, room: int, segments: int) -> SlotModel {
    let first = next_fit(state, budget, room);
    match first.outcome {
        Err(error) => SlotModel {
            outcome: Err(error),
            payloads: Seq::empty(),
            state: first.state,
            budget: first.budget,
        },
        Ok(None) => SlotModel {
            outcome: Ok(None),
            payloads: Seq::empty(),
            state: first.state,
            budget: first.budget,
        },
        Ok(Some(packet)) => match payload_of(first.state.buffer, packet) {
            Err(error) => SlotModel {
                outcome: Err(error),
                payloads: Seq::empty(),
                state: first.state,
                budget: first.budget,
            },
            Ok(bytes) => {
                let stride = packet.payload_length as int;
                let group = gathered_group(
                    first.state,
                    first.budget,
                    stride,
                    group_limit(room, stride, segments) - 1,
                );
                SlotModel {
                    outcome: match group.error {
                        Some(error) => Err(error),
                        None => Ok(
                            Some(
                                SlotMeta {
                                    len: ((1 + group.payloads.len()) * stride) as usize,
                                    stride: stride as usize,
                                },
                            ),
                        ),
                    },
                    payloads: seq![bytes] + group.payloads,
                    state: group.state,
                    budget: group.budget,
                }
            },
        },
    }
}

/// A buffer after payloads of `stride` bytes were written to its start.
pub open spec fn with_payloads(before: Seq<u8>, payloads: Seq<Seq<u8>>) -> Seq<u8> {
    let written = payloads.flatten();
    written + before.skip(written.len() as int)
}

proof fn lemma_group_limit(room: int, stride: int, segments: int, count: int)
    requires
        0 <= stride <= room,
        segments >= 1,
        0 <= count <= group_limit(room, stride, segments),
    ensures
        1 <= group_limit(room, stride, segments) <= segments,
        0 <= count * stride <= room,
{
    let size = if stride < 1 { 1 } else { stride };
    let fitting = room / size;
    let limit = group_limit(room, stride, segments);
    assert(fitting * size <= room) by {
        vstd::arithmetic::div_mod::lemma_fundamental_div_mod(room, size);
        assert(size * fitting == fitting * size) by (nonlinear_arith);
    }
    if fitting < 1 {
        assert(stride == 0) by {
            if stride >= 1 {
                vstd::arithmetic::div_mod::lemma_div_is_ordered(stride, room, stride);
                vstd::arithmetic::div_mod::lemma_div_by_self(stride);
            }
        }
        assert(count * stride == 0) by (nonlinear_arith)
            requires stride == 0;
    } else {
        assert(limit <= fitting);
        assert(0 <= count * stride <= fitting * size) by (nonlinear_arith)
            requires 0 <= count <= fitting, 0 <= stride <= size;
    }
}

proof fn lemma_group_size(state: ReceiverModel, budget: int, stride: int, more: int)
    ensures
        gathered_group(state, budget, stride, more).payloads.len() <= (if more < 0 {
            0
        } else {
            more
        }),
        forall|i: int|
            0 <= i < gathered_group(state, budget, stride, more).payloads.len() ==> (#[trigger] gathered_group(
                state,
                budget,
                stride,
                more,
            ).payloads[i]).len() == stride,
    decreases more,
{
    if more > 0 {
        let next = next_packet(state, budget);
        lemma_group_size(next.state, next.budget, stride, more - 1);
    }
}

impl BatchReceiver {
    /// Fills one receive slot with the next datagram that fits and those of the same size
    /// that follow it directly.
    pub fn fill_slot(&mut self, slot: &mut [u8], segments: usize, reject_budget: &mut usize) -> (result: Result<
        Option<SlotMeta>,
        RawError,
    >)
        requires
            old(self).wf(),
            segments >= 1,
        ensures
            final(self).wf(),
            ({
                let filled = filled_slot(
                    old(self)@,
                    *old(reject_budget) as nat,
                    old(slot)@.len() as int,
                    segments as int,
                );
                &&& result == filled.outcome
                &&& final(self)@ == filled.state
                &&& *final(reject_budget) == filled.budget
                &&& final(slot)@ == with_payloads(old(slot)@, filled.payloads)
                &&& final(slot)@.len() == old(slot)@.len()
            }),
    {
        let room: usize = slot.len();
        let ghost unfilled = slot@;
        let first: DecodedRawPacket = match self.next_fitting(room, reject_budget) {
            Ok(Some(packet)) => packet,
            Ok(None) => {
                proof {
                    lemma_no_payloads(unfilled);
                }
                return Ok(None);
            },
            Err(error) => {
                proof {
                    lemma_no_payloads(unfilled);
                }
                return Err(error);
            },
        };
        let ghost base = self@;
        let ghost base_budget = *reject_budget as int;
        let stride: usize = first.payload_length;
        let limit: usize = {
            let fitting: usize = room / (if stride < 1 {
                1
            } else {
                stride
            });
            if fitting < 1 {
                1
            } else if fitting > segments {
                segments
            } else {
                fitting
            }
        };
        let first_bytes: Vec<u8> = match self.decoded_payload(first) {
            Ok(bytes) => vstd::slice::slice_to_vec(bytes),
            Err(error) => {
                proof {
                    lemma_no_payloads(unfilled);
                }
                return Err(error);
            },
        };
        put(slot, 0, first_bytes.as_slice());
        let ghost mut payloads: Seq<Seq<u8>> = seq![first_bytes@];
        let mut count: usize = 1;
        proof {
            lemma_group_limit(room as int, stride as int, segments as int, 1);
            lemma_first_payload(unfilled, first_bytes@);
            assert(slot@ =~= first_bytes@ + unfilled.skip(stride as int));
            assert(1 * stride == stride) by (nonlinear_arith);
            let group = gathered_group(base, base_budget, stride as int, limit - 1);
            assert(payloads + group.payloads =~= seq![first_bytes@] + group.payloads);
        }
        while count < limit
            invariant
                self.wf(),
                1 <= count <= limit <= segments,
                limit == group_limit(room as int, stride as int, segments as int),
                stride <= room,
                room == unfilled.len(),
                slot@.len() == unfilled.len(),
                payloads.len() == count,
                payloads.flatten().len() == count * stride,
                count * stride <= room,
                slot@ == with_payloads(unfilled, payloads),
                ({
                    let group = gathered_group(base, base_budget, stride as int, limit - 1);
                    let rest = gathered_group(self@, *reject_budget as int, stride as int, limit - count);
                    &&& group.error == rest.error
                    &&& group.state == rest.state
                    &&& group.budget == rest.budget
                    &&& seq![first_bytes@] + group.payloads == payloads + rest.payloads
                }),
                unfilled == old(slot)@,
                filled_slot(
                    old(self)@,
                    *old(reject_budget) as nat,
                    room as int,
                    segments as int,
                ) == (SlotModel {
                    outcome: match gathered_group(base, base_budget, stride as int, limit - 1).error {
                        Some(error) => Err(error),
                        None => Ok(
                            Some(
                                SlotMeta {
                                    len: ((1 + gathered_group(
                                        base,
                                        base_budget,
                                        stride as int,
                                        limit - 1,
                                    ).payloads.len()) * stride) as usize,
                                    stride: stride,
                                },
                            ),
                        ),
                    },
                    payloads: seq![first_bytes@] + gathered_group(
                        base,
                        base_budget,
                        stride as int,
                        limit - 1,
                    ).payloads,
                    state: gathered_group(base, base_budget, stride as int, limit - 1).state,
                    budget: gathered_group(base, base_budget, stride as int, limit - 1).budget,
                }),
            decreases limit - count,
        {
            let ghost here = self@;
            let ghost here_budget = *reject_budget as int;
            let next: Option<DecodedRawPacket> = match self.next_decoded_packet(reject_budget) {
                Ok(next) => next,
                Err(error) => {
                    proof {
                        assert(payloads + Seq::<Seq<u8>>::empty() =~= payloads);
                    }
                    return Err(error);
                },
            };
            let packet: DecodedRawPacket = match next {
                Some(packet) => packet,
                None => {
                    proof {
                        assert(payloads + Seq::<Seq<u8>>::empty() =~= payloads);
                        assert((1 + gathered_group(base, base_budget, stride as int, limit - 1).payloads.len())
                            == count);
                    }
                    return Ok(Some(SlotMeta { len: count * stride, stride }));
                },
            };
            if packet.payload_length != stride {
                self.pending = Some(packet);
                proof {
                    assert(payloads + Seq::<Seq<u8>>::empty() =~= payloads);
                    assert((1 + gathered_group(base, base_budget, stride as int, limit - 1).payloads.len()) == count);
                }
                return Ok(Some(SlotMeta { len: count * stride, stride }));
            }
            let bytes: Vec<u8> = match self.decoded_payload(packet) {
                Ok(bytes) => vstd::slice::slice_to_vec(bytes),
                Err(error) => {
                    proof {
                        assert(payloads + Seq::<Seq<u8>>::empty() =~= payloads);
                    }
                    return Err(error);
                },
            };
            proof {
                lemma_group_limit(room as int, stride as int, segments as int, count + 1);
                assert((count + 1) * stride == count * stride + stride) by (nonlinear_arith);
            }
            let start: usize = count * stride;
            let ghost filled = slot@;
            put(slot, start, bytes.as_slice());
            proof {
                lemma_next_payload(unfilled, payloads, bytes@, filled, slot@);
                let rest = gathered_group(self@, *reject_budget as int, stride as int, limit - count - 1);
                assert(payloads + (seq![bytes@] + rest.payloads) =~= payloads.push(bytes@) + rest.payloads);
                payloads = payloads.push(bytes@);
            }
            count += 1;
        }
        proof {
            assert(payloads + Seq::<Seq<u8>>::empty() =~= payloads);
            assert((1 + gathered_group(base, base_budget, stride as int, limit - 1).payloads.len()) == count);
        }
        Ok(Some(SlotMeta { len: count * stride, stride }))
    }

    /// Finds the next packet whose payload fits; larger ones are rejected.
    fn next_fitting(&mut self, room: usize, reject_budget: &mut usize) -> (result: Result<
        Option<DecodedRawPacket>,
        RawError,
    >)
        requires
            old(self).wf(),
        ensures
            final(self).wf(),
            ({
                let next = next_fit(old(self)@, *old(reject_budget) as nat, room as int);
                &&& result == next.outcome
                &&& final(self)@ == next.state
                &&& *final(reject_budget) == next.budget
            }),
            result matches Ok(Some(packet)) ==> packet.batch_index < MAX_RECV_BATCH && packet.payload_length <= room,
    {
        loop
            invariant
                self.wf(),
                next_fit(old(self)@, *old(reject_budget) as nat, room as int) == next_fit(
                    self@,
                    *reject_budget as nat,
                    room as int,
                ),
            decreases packets_left(self@),
        {
            proof {
                lemma_next_progress(self@, *reject_budget as int);
            }
            match self.next_decoded_packet(reject_budget) {
                Ok(Some(packet)) => {
                    if packet.payload_length <= room {
                        return Ok(Some(packet));
                    }
                    self.decode_rejects = self.decode_rejects.saturating_add(1);
                    reject_budget_exhausted(reject_budget);
                },
                Ok(None) => {
                    return Ok(None);
                },
                Err(error) => {
                    return Err(error);
                },
            }
        }
    }
}

proof fn lemma_no_payloads(before: Seq<u8>)
    ensures
        with_payloads(before, Seq::empty()) == before,
{
    assert(Seq::<Seq<u8>>::empty().flatten().len() == 0);
    assert(with_payloads(before, Seq::empty()) =~= before);
}

proof fn lemma_first_payload(before: Seq<u8>, bytes: Seq<u8>)
    requires
        bytes.len() <= before.len(),
    ensures
        seq![bytes].flatten() == bytes,
        with_payloads(before, seq![bytes]) == bytes + before.skip(bytes.len() as int),
{
    seq![bytes].lemma_flatten_one_element();
}

proof fn lemma_next_payload(
    before: Seq<u8>,
    payloads: Seq<Seq<u8>>,
    bytes: Seq<u8>,
    filled: Seq<u8>,
    after: Seq<u8>,
)
    requires
        filled == with_payloads(before, payloads),
        payloads.flatten().len() + bytes.len() <= before.len(),
        after.len() == before.len(),
        filled.len() == before.len(),
        forall|i: int|
            0 <= i < before.len() ==> #[trigger] after[i] == (if payloads.flatten().len() <= i
                < payloads.flatten().len() + bytes.len() {
                bytes[i - payloads.flatten().len()]
            } else {
                filled[i]
            }),
    ensures
        payloads.push(bytes).flatten() == payloads.flatten() + bytes,
        payloads.push(bytes).flatten().len() == payloads.flatten().len() + bytes.len(),
        after == with_payloads(before, payloads.push(bytes)),
{
    let pushed = payloads.push(bytes);
    assert(pushed.flatten() == payloads.flatten() + bytes) by {
        pushed.lemma_flatten_and_flatten_alt_are_equivalent();
        payloads.lemma_flatten_and_flatten_alt_are_equivalent();
        assert(pushed.drop_last() =~= payloads);
        assert(pushed.last() == bytes);
    }
    assert(after =~= with_payloads(before, pushed));
}

}
