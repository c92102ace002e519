//! Taking packets out of a memory-mapped receive ring.
use crate::faketcp::carrier;
use crate::faketcp::carrier::{CarrierModel, FakeTcpCarrier};
use crate::faketcp::encode::put;
use crate::raw::error::RawError;
use crate::raw::receive;
use crate::raw::receive::{RAW_PACKET_BUFFER_BYTES, SlotMeta, reject_budget_exhausted};
use vstd::prelude::*;

verus! {

/// The status bit of a frame that belongs to the reader.
pub const TP_STATUS_USER: u32 = 1;

/// The status bit of a frame whose packet was also queued on the socket in full.
pub const TP_STATUS_COPY: u32 = 2;

/// What became of a packet from the ring.
#[derive(Clone, Copy, Debug, PartialEq, Eq, Structural)]
pub enum RingPayloadCopy {
    /// It was dropped.
    Skipped,
    /// Its payload of this many bytes was copied to the slot.
    Copied(usize),
    /// Its payload of this many bytes waits at the start of the storage.
    Pending(usize),
}

/// What a ring frame holds.
#[derive(Clone, Copy, Debug, PartialEq, Eq, Structural)]
pub enum RingFrame {
    /// The frame still belongs to the system.
    Empty,
    /// The packet lies outside the frame.
    Broken,
    /// The packet lies between two offsets of the frame. Where it was cut, its full
    /// length is given, and the whole of it waits on the socket.
    Packet { start: usize, end: usize, copied: Option<usize> },
}

/// Whether a status bit is set.
pub open spec fn has_status(status: u32, bit: u32) -> bool {
    status & bit != 0
}

/// Reads the header of a ring frame.
pub fn ring_frame(status: u32, snaplen: u32, packet_len: u32, mac: u16, frame_size: usize) -> (frame: RingFrame)
    ensures
        frame == (if !has_status(status, TP_STATUS_USER) {
            RingFrame::Empty
        } else if mac + snaplen > frame_size {
            RingFrame::Broken
        } else {
            RingFrame::Packet {
                start: mac as usize,
                end: (mac + snaplen) as usize,
                copied: if has_status(status, TP_STATUS_COPY) && snaplen < packet_len {
                    Some(packet_len as usize)
                } else {
                    None
                },
            }
        }),
{
    if status & TP_STATUS_USER == 0 {
        return RingFrame::Empty;
    }
    let start: usize = mac as usize;
    match start.checked_add(snaplen as usize) {
        Some(end) => {
            if end > frame_size {
                return RingFrame::Broken;
            }
            let copied: Option<usize> = if status & TP_STATUS_COPY != 0 && snaplen < packet_len {
                Some(packet_len as usize)
            } else {
                None
            };
            RingFrame::Packet { start, end, copied }
        },
        None => RingFrame::Broken,
    }
}

/// The frame after this one in a ring of `count` frames.
pub fn next_frame(frame: usize, count: usize) -> (next: usize)
    requires
        frame < count,
    ensures
        next == (if frame + 1 == count {
            0
        } else {
            frame + 1
        }),
        next < count,
{
    if frame + 1 == count {
        0
    } else {
        frame + 1
    }
}

/// What happens to a payload of `length` bytes: it goes into the slot where the group has
/// no size yet or the same one, and waits otherwise.
pub open spec fn placement(length: int, room: int, offset: int, expected: Option<usize>) -> Result<
    RingPayloadCopy,
    RawError,
> {
    if expected is None || expected == Some(length as usize) {
        if offset + length > usize::MAX {
            Err(RawError::PayloadOffsetOverflow)
        } else if offset + length > room {
            Ok(RingPayloadCopy::Skipped)
        } else {
            Ok(RingPayloadCopy::Copied(length as usize))
        }
    } else if length > room {
        Ok(RingPayloadCopy::Skipped)
    } else {
        Ok(RingPayloadCopy::Pending(length as usize))
    }
}

/// What becomes of a packet.
pub open spec fn packet_placement(
    state: CarrierModel,
    packet: Seq<u8>,
    room: int,
    offset: int,
    expected: Option<usize>,
) -> Result<RingPayloadCopy, RawError> {
    match carrier::datagram_in(state, packet) {
        Err(_) => Ok(RingPayloadCopy::Skipped),
        Ok(view) => placement(view.payload.len() as int, room, offset, expected),
    }
}

/// The carrier after it has seen a packet.
pub open spec fn carrier_after(state: CarrierModel, packet: Seq<u8>) -> CarrierModel {
    match carrier::datagram_in(state, packet) {
        Err(_) => state,
        Ok(view) => carrier::after_receiving(state, view),
    }
}

/// `bytes` with `part` written over it from `at` on.
pub open spec fn overwritten(bytes: Seq<u8>, at: int, part: Seq<u8>) -> Seq<u8> {
    bytes.take(at) + part + bytes.skip(at + part.len())
}

/// What the slot holds after a packet was placed.
pub open spec fn slot_after(
    slot: Seq<u8>,
    offset: int,
    payload: Seq<u8>,
    outcome: Result<RingPayloadCopy, RawError>,
) -> Seq<u8> {
    match outcome {
        Ok(RingPayloadCopy::Copied(_)) => overwritten(slot, offset, payload),
        _ => slot,
    }
}

/// The rejections after a packet was placed.
pub open spec fn rejects_after(rejects: u64, outcome: Result<RingPayloadCopy, RawError>) -> u64 {
    match outcome {
        Ok(RingPayloadCopy::Skipped) => receive::counted(rejects),
        _ => rejects,
    }
}

/// Places the payload of a packet that lies in a ring frame.
///
/// A payload of another size than the group's waits at the start of `storage`.
pub fn place_ring_packet(
    inbound: &mut FakeTcpCarrier,
    packet: &[u8],
    slot: &mut [u8],
    offset: usize,
    expected: Option<usize>,
    storage: &mut [u8],
    decode_rejects: &mut u64,
) -> (result: Result<RingPayloadCopy, RawError>)
    requires
        old(inbound).wf(),
        old(storage)@.len() >= RAW_PACKET_BUFFER_BYTES,
    ensures
        final(inbound).wf(),
        ({
            let state = old(inbound)@;
            let outcome = packet_placement(state, packet@, old(slot)@.len() as int, offset as int, expected);
            let payload = carrier::datagram_in(state, packet@)->Ok_0.payload;
            &&& result == outcome
            &&& final(inbound)@ == carrier_after(state, packet@)
            &&& final(slot)@ == slot_after(old(slot)@, offset as int, payload, outcome)
            &&& final(storage)@ == (match outcome {
                Ok(RingPayloadCopy::Pending(_)) => overwritten(old(storage)@, 0, payload),
                _ => old(storage)@,
            })
            &&& *final(decode_rejects) == rejects_after(*old(decode_rejects), outcome)
        }),
        final(slot)@.len() == old(slot)@.len(),
        final(storage)@.len() == old(storage)@.len(),
{
    let decoded = match inbound.decode_datagram_borrowed(packet) {
        Ok(decoded) => decoded,
        Err(_) => {
            *decode_rejects = decode_rejects.saturating_add(1);
            return Ok(RingPayloadCopy::Skipped);
        },
    };
    let payload: &[u8] = decoded.payload;
    proof {
        carrier::lemma_datagram_size(old(inbound)@, packet@);
    }
    let length: usize = payload.len();
    let same: bool = match expected {
        Some(stride) => stride == length,
        None => true,
    };
    if same {
        let end: usize = match offset.checked_add(length) {
            Some(end) => end,
            None => {
                return Err(RawError::PayloadOffsetOverflow);
            },
        };
        if end > slot.len() {
            *decode_rejects = decode_rejects.saturating_add(1);
            return Ok(RingPayloadCopy::Skipped);
        }
        put(slot, offset, payload);
        assert(slot@ =~= overwritten(old(slot)@, offset as int, payload@));
        Ok(RingPayloadCopy::Copied(length))
    } else {
        if length > slot.len() {
            *decode_rejects = decode_rejects.saturating_add(1);
            return Ok(RingPayloadCopy::Skipped);
        }
        put(storage, 0, payload);
        assert(storage@ =~= overwritten(old(storage)@, 0, payload@));
        Ok(RingPayloadCopy::Pending(length))
    }
}

/// Places the payload of a packet that was cut in its ring frame and lies whole at the
/// start of `storage`, `received` bytes long.
///
/// A payload of another size than the group's moves to the start of `storage`.
pub fn place_copied_packet(
    inbound: &mut FakeTcpCarrier,
    received: usize,
    expected_length: usize,
    slot: &mut [u8],
    offset: usize,
    expected: Option<usize>,
    storage: &mut [u8],
    decode_rejects: &mut u64,
) -> (result: Result<RingPayloadCopy, RawError>)
    requires
        old(inbound).wf(),
        received <= old(storage)@.len(),
    ensures
        final(inbound).wf(),
        ({
            let state = old(inbound)@;
            let packet = old(storage)@.take(received as int);
            let outcome = if received != expected_length {
                Ok::<RingPayloadCopy, RawError>(RingPayloadCopy::Skipped)
            } else {
                packet_placement(state, packet, old(slot)@.len() as int, offset as int, expected)
            };
            let payload = carrier::datagram_in(state, packet)->Ok_0.payload;
            &&& result == outcome
            &&& final(inbound)@ == (if received != expected_length {
                state
            } else {
                carrier_after(state, packet)
            })
            &&& final(slot)@ == slot_after(old(slot)@, offset as int, payload, outcome)
            &&& final(storage)@ == (match outcome {
                Ok(RingPayloadCopy::Pending(_)) => overwritten(old(storage)@, 0, payload),
                _ => old(storage)@,
            })
            &&& *final(decode_rejects) == rejects_after(*old(decode_rejects), outcome)
        }),
        final(slot)@.len() == old(slot)@.len(),
        final(storage)@.len() == old(storage)@.len(),
{
    if received != expected_length {
        *decode_rejects = decode_rejects.saturating_add(1);
        return Ok(RingPayloadCopy::Skipped);
    }
    let ghost packet = storage@.take(received as int);
    let whole: &[u8] = vstd::slice::slice_subrange(&*storage, 0, received);
    assert(whole@ =~= packet);
    let length: usize = match inbound.decode_datagram_borrowed(whole) {
        Ok(decoded) => decoded.payload.len(),
        Err(_) => {
            *decode_rejects = decode_rejects.saturating_add(1);
            return Ok(RingPayloadCopy::Skipped);
        },
    };
    let start: usize = received - length;
    let ghost bytes = packet.skip(start as int);
    proof {
        carrier::lemma_datagram_size(old(inbound)@, packet);
    }
    let same: bool = match expected {
        Some(stride) => stride == length,
        None => true,
    };
    if same {
        let end: usize = match offset.checked_add(length) {
            Some(end) => end,
            None => {
                return Err(RawError::PayloadOffsetOverflow);
            },
        };
        if end > slot.len() {
            *decode_rejects = decode_rejects.saturating_add(1);
            return Ok(RingPayloadCopy::Skipped);
        }
        let payload: &[u8] = vstd::slice::slice_subrange(&*storage, start, received);
        assert(payload@ =~= bytes);
        put(slot, offset, payload);
        assert(slot@ =~= overwritten(old(slot)@, offset as int, bytes));
        Ok(RingPayloadCopy::Copied(length))
    } else {
        if length > slot.len() {
            *decode_rejects = decode_rejects.saturating_add(1);
            return Ok(RingPayloadCopy::Skipped);
        }
        move_to_front(storage, start, length);
        assert(storage@ =~= overwritten(old(storage)@, 0, bytes));
        Ok(RingPayloadCopy::Pending(length))
    }
}

/// Moves `length` bytes from `start` on to the start of the storage.
fn move_to_front(storage: &mut [u8], start: usize, length: usize)
    requires
        start + length <= old(storage)@.len(),
    ensures
        final(storage)@ == overwritten(old(storage)@, 0, old(storage)@.subrange(start as int, start + length)),
        final(storage)@.len() == old(storage)@.len(),
{
    assert(storage.len() == storage@.len());
    let mut at: usize = 0;
    while at < length
        invariant
            at <= length,
            start + length <= storage@.len() <= usize::MAX,
            storage@.len() == old(storage)@.len(),
            forall|i: int|
                0 <= i < storage@.len() ==> #[trigger] storage@[i] == (if i < at {
                    old(storage)@[start + i]
                } else {
                    old(storage)@[i]
                }),
        decreases length - at,
    {
        storage[at] = storage[start + at];
        at += 1;
    }
    assert(storage@ =~= overwritten(old(storage)@, 0, old(storage)@.subrange(start as int, start + length)));
}

/// One receive slot that is being filled from a ring: the size of its datagrams, once
/// known, and how many it holds.
#[derive(Clone, Copy, Debug, PartialEq, Eq, Structural)]
pub struct RingSlot {
    pub stride: Option<usize>,
    pub count: usize,
}

impl RingSlot {
    /// The bytes that the datagrams so far take up can be counted.
    pub open spec fn wf(&self) -> bool {
        match self.stride {
            Some(stride) => self.count * stride <= usize::MAX,
            None => self.count == 0,
        }
    }

    /// An empty slot.
    pub fn new() -> (slot: RingSlot)
        ensures
            slot == (RingSlot { stride: None, count: 0 }),
            slot.wf(),
    {
        RingSlot { stride: None, count: 0 }
    }

    /// Whether another datagram may join: there are fewer than `segments`, and one more of
    /// the same size fits in `room` bytes.
    pub fn has_room(&self, room: usize, segments: usize) -> (result: Result<bool, RawError>)
        requires
            self.wf(),
        ensures
            result == (if self.count >= segments {
                Ok::<bool, RawError>(false)
            } else {
                match self.stride {
                    None => Ok(true),
                    Some(stride) => if (self.count + 1) * stride > usize::MAX {
                        Err(RawError::GroupLengthOverflow)
                    } else {
                        Ok((self.count + 1) * stride <= room)
                    },
                }
            }),
    {
        if self.count >= segments {
            return Ok(false);
        }
        match self.stride {
            None => Ok(true),
            Some(stride) => match (self.count + 1).checked_mul(stride) {
                Some(end) => Ok(end <= room),
                None => Err(RawError::GroupLengthOverflow),
            },
        }
    }

    /// Where the next datagram goes.
    pub fn offset(&self) -> (offset: usize)
        requires
            self.wf(),
        ensures
            offset == (match self.stride {
                Some(stride) => self.count * stride,
                None => 0,
            }),
    {
        match self.stride {
            Some(stride) => self.count * stride,
            None => 0,
        }
    }

    /// Copies a payload of `length` bytes that waited at the start of `storage` into the
    /// slot.
    pub fn take_pending(
        &self,
        length: usize,
        slot: &mut [u8],
        storage: &[u8],
        decode_rejects: &mut u64,
    ) -> (copy: RingPayloadCopy)
        requires
            length <= storage@.len(),
        ensures
            ({
                let fits = (self.count + 1) * length <= old(slot)@.len();
                &&& copy == (if fits {
                    RingPayloadCopy::Copied(length)
                } else {
                    RingPayloadCopy::Skipped
                })
                &&& final(slot)@ == (if fits {
                    overwritten(old(slot)@, self.count * length, storage@.take(length as int))
                } else {
                    old(slot)@
                })
                &&& *final(decode_rejects) == (if fits {
                    *old(decode_rejects)
                } else {
                    receive::counted(*old(decode_rejects))
                })
            }),
            final(slot)@.len() == old(slot)@.len(),
    {
        assert(slot.len() == slot@.len());
        proof {
            assert((self.count + 1) * length == self.count * length + length) by (nonlinear_arith);
            assert(self.count * length >= 0) by (nonlinear_arith);
        }
        let start: Option<usize> = self.count.checked_mul(length);
        if let Some(start) = start {
            if let Some(end) = start.checked_add(length) {
                if end <= slot.len() {
                    let payload: &[u8] = vstd::slice::slice_subrange(storage, 0, length);
                    assert(payload@ =~= storage@.take(length as int));
                    put(slot, start, payload);
                    assert(slot@ =~= overwritten(old(slot)@, start as int, payload@));
                    return RingPayloadCopy::Copied(length);
                }
            }
        }
        *decode_rejects = decode_rejects.saturating_add(1);
        RingPayloadCopy::Skipped
    }

    /// Takes note of what became of a packet, `None` where the ring had none, and says
    /// whether to go on with this slot.
    pub fn record(
        &mut self,
        copy: Option<RingPayloadCopy>,
        room: usize,
        reject_budget: &mut usize,
        pending: &mut Option<usize>,
    ) -> (more: bool)
        requires
            old(self).wf(),
            copy matches Some(RingPayloadCopy::Copied(length)) ==> match old(self).stride {
                Some(stride) => length == stride && (old(self).count + 1) * stride <= room && old(self).count
                    < usize::MAX,
                None => length <= room,
            },
        ensures
            final(self).wf(),
            match copy {
                None => !more && *final(self) == *old(self) && *final(reject_budget) == *old(reject_budget)
                    && *final(pending) == *old(pending),
                Some(RingPayloadCopy::Skipped) => {
                    &&& *final(self) == *old(self)
                    &&& *final(pending) == *old(pending)
                    &&& *final(reject_budget) == receive::budget_after_reject(*old(reject_budget) as int)
                    &&& more == (*final(reject_budget) != 0)
                },
                Some(RingPayloadCopy::Copied(length)) => {
                    &&& more
                    &&& *final(self) == (RingSlot {
                        stride: match old(self).stride {
                            Some(stride) => Some(stride),
                            None => Some(length),
                        },
                        count: (old(self).count + 1) as usize,
                    })
                    &&& *final(reject_budget) == *old(reject_budget)
                    &&& *final(pending) == *old(pending)
                },
                Some(RingPayloadCopy::Pending(length)) => {
                    &&& !more
                    &&& *final(self) == *old(self)
                    &&& *final(reject_budget) == *old(reject_budget)
                    &&& *final(pending) == Some(length)
                },
            },
    {
        match copy {
            None => false,
            Some(RingPayloadCopy::Skipped) => !reject_budget_exhausted(reject_budget),
            Some(RingPayloadCopy::Copied(length)) => {
                proof {
                    assert(1 * length == length) by (nonlinear_arith);
                }
                if self.stride.is_none() {
                    self.stride = Some(length);
                }
                self.count = self.count + 1;
                true
            },
            Some(RingPayloadCopy::Pending(length)) => {
                *pending = Some(length);
                false
            },
        }
    }

    /// The filled slot, where a datagram went into it and packets may still be rejected.
    pub fn finish(&self, reject_budget: usize) -> (meta: Option<SlotMeta>)
        requires
            self.wf(),
        ensures
            meta == (if reject_budget == 0 {
                None
            } else {
                match self.stride {
                    Some(stride) => Some(SlotMeta { len: (self.count * stride) as usize, stride }),
                    None => None,
                }
            }),
    {
        if reject_budget == 0 {
            return None;
        }
        match self.stride {
            Some(stride) => Some(SlotMeta { len: self.count * stride, stride }),
            None => None,
        }
    }
}

}
