//! Host-driven datagram carrier for runtime-neutral integrations.
//!
//! A platform adapter copies datagrams into the receive queue and drains the send queue.
//! Both queues are bounded; no caller buffer is retained after a call returns.
use crate::address::{IpAddress, SocketAddress};
use crate::faketcp::encode::put;
use std::collections::VecDeque;
use vstd::prelude::*;

verus! {

/// Host-carrier construction, peer-validation, and bounded-queue errors.
#[derive(Clone, Copy, Debug, PartialEq, Eq, Structural)]
pub enum HostDatagramError {
    /// The host reported that this path can no longer carry packets.
    Unavailable,
    /// Queue capacity was zero.
    ZeroCapacity,
    /// MTU was zero.
    ZeroMtu,
    /// The checked queue byte budget overflowed.
    BudgetOverflow,
    /// A datagram was empty or exceeded the configured MTU.
    PacketOutsideMtu {
        /// Observed datagram length.
        len: usize,
        /// Configured MTU.
        mtu: usize,
    },
    /// A received datagram did not come from the fixed peer.
    PeerMismatch {
        /// Configured peer address.
        expected: SocketAddress,
        /// Host-observed source address.
        actual: SocketAddress,
    },
    /// The bounded packet queue has no free slot or byte budget.
    QueueFull,
    /// The caller-owned output buffer cannot hold the next datagram.
    BufferTooSmall {
        /// Required datagram bytes.
        required: usize,
        /// Supplied output capacity.
        capacity: usize,
    },
}

/// A bounded queue of packets.
#[derive(Debug)]
pub struct PacketQueue {
    packets: VecDeque<Vec<u8>>,
    capacity: usize,
}

impl View for PacketQueue {
    type V = Seq<Seq<u8>>;

    closed spec fn view(&self) -> Seq<Seq<u8>> {
        self.packets@.map_values(|packet: Vec<u8>| packet@)
    }
}

impl PacketQueue {
    /// The most packets that the queue holds.
    pub closed spec fn limit(&self) -> int {
        self.capacity as int
    }

    /// The queue is within its bound.
    pub closed spec fn wf(&self) -> bool {
        self.packets@.len() <= self.capacity
    }

    fn new(capacity: usize) -> (queue: Self)
        ensures
            queue.wf(),
            queue@ == Seq::<Seq<u8>>::empty(),
            queue.limit() == capacity,
    {
        let queue = PacketQueue { packets: VecDeque::new(), capacity };
        assert(queue@ =~= Seq::<Seq<u8>>::empty());
        queue
    }

    /// Copies a packet to the end of the queue, unless the queue is full.
    fn push_copy(&mut self, packet: &[u8]) -> (accepted: bool)
        requires
            old(self).wf(),
        ensures
            final(self).wf(),
            final(self).limit() == old(self).limit(),
            accepted == (old(self)@.len() < old(self).limit()),
            final(self)@ == (if accepted {
                old(self)@.push(packet@)
            } else {
                old(self)@
            }),
    {
        if self.packets.len() >= self.capacity {
            return false;
        }
        self.packets.push_back(vstd::slice::slice_to_vec(packet));
        assert(self@ =~= old(self)@.push(packet@));
        true
    }

    /// Moves the first packet of the queue into `output`. A packet that does not fit stays.
    fn pop_into(&mut self, output: &mut [u8]) -> (result: Result<Option<usize>, usize>)
        requires
            old(self).wf(),
        ensures
            final(self).wf(),
            final(self).limit() == old(self).limit(),
            if old(self)@.len() == 0 {
                result == Ok::<Option<usize>, usize>(None) && final(self)@ == old(self)@ && final(output)@
                    == old(output)@
            } else if old(self)@[0].len() > old(output)@.len() {
                result == Err::<Option<usize>, usize>(old(self)@[0].len() as usize) && final(self)@ == old(self)@
                    && final(output)@ == old(output)@
            } else {
                &&& result == Ok::<Option<usize>, usize>(Some(old(self)@[0].len() as usize))
                &&& final(self)@ == old(self)@.skip(1)
                &&& final(output)@ == old(self)@[0] + old(output)@.skip(old(self)@[0].len() as int)
            },
    {
        if self.packets.len() == 0 {
            return Ok(None);
        }
        assert(self@[0] == self.packets@[0]@);
        let length: usize = self.packets[0].len();
        if length > output.len() {
            return Err(length);
        }
        match self.packets.pop_front() {
            Some(packet) => {
                put(output, 0, packet.as_slice());
                assert(output@ =~= packet@ + old(output)@.skip(length as int));
                assert(self@ =~= old(self)@.skip(1));
                Ok(Some(length))
            },
            None => Ok(None),
        }
    }
}

/// A bounded, fixed-peer datagram socket driven by a host event loop.
///
/// The host side owns the input and output buffers and calls the two `*_datagram` methods;
/// the QUIC endpoint calls `receive` and `send`. One socket represents one local address and
/// one remote peer.
#[derive(Debug)]
pub struct HostDatagramSocket {
    local: SocketAddress,
    peer: SocketAddress,
    mtu: usize,
    ingress: PacketQueue,
    egress: PacketQueue,
    unavailable: bool,
    receiver_waits: bool,
    sender_waits: bool,
}

/// The content of a socket.
#[verifier::ext_equal]
pub ghost struct HostSocketModel {
    /// The local address.
    pub local: SocketAddress,
    /// The only peer.
    pub peer: SocketAddress,
    /// The largest datagram.
    pub mtu: int,
    /// The most datagrams in each queue.
    pub capacity: int,
    /// The datagrams that were received and not yet read.
    pub ingress: Seq<Seq<u8>>,
    /// The datagrams that are to be sent.
    pub egress: Seq<Seq<u8>>,
    /// Whether the path is gone.
    pub unavailable: bool,
    /// Whether a reader waits for a datagram.
    pub receiver_waits: bool,
    /// Whether a writer waits for room.
    pub sender_waits: bool,
}

impl View for HostDatagramSocket {
    type V = HostSocketModel;

    closed spec fn view(&self) -> HostSocketModel {
        HostSocketModel {
            local: self.local,
            peer: self.peer,
            mtu: self.mtu as int,
            capacity: self.ingress.limit(),
            ingress: self.ingress@,
            egress: self.egress@,
            unavailable: self.unavailable,
            receiver_waits: self.receiver_waits,
            sender_waits: self.sender_waits,
        }
    }
}

/// A socket after its path was given up: nobody waits there any more, and the datagrams in
/// its queues stay. A path that was gone already stays as it is.
pub open spec fn withdrawn(socket: HostSocketModel) -> HostSocketModel {
    if socket.unavailable {
        socket
    } else {
        HostSocketModel { unavailable: true, receiver_waits: false, sender_waits: false, ..socket }
    }
}

/// Whether every datagram of a queue is one that the socket takes.
pub open spec fn queue_fits(queue: Seq<Seq<u8>>, capacity: int, mtu: int) -> bool {
    queue.len() <= capacity && forall|index: int|
        0 <= index < queue.len() ==> 0 < (#[trigger] queue[index]).len() <= mtu
}

impl HostSocketModel {
    /// Both queues are within their bounds.
    pub open spec fn valid(self) -> bool {
        queue_fits(self.ingress, self.capacity, self.mtu) && queue_fits(self.egress, self.capacity, self.mtu)
    }
}

/// Why a datagram from the host is refused, if it is.
pub open spec fn ingress_refusal(state: HostSocketModel, source: SocketAddress, length: int) -> Option<
    HostDatagramError,
> {
    if state.unavailable {
        Some(HostDatagramError::Unavailable)
    } else if source != state.peer {
        Some(HostDatagramError::PeerMismatch { expected: state.peer, actual: source })
    } else if length == 0 || length > state.mtu {
        Some(HostDatagramError::PacketOutsideMtu { len: length as usize, mtu: state.mtu as usize })
    } else if state.ingress.len() >= state.capacity {
        Some(HostDatagramError::QueueFull)
    } else {
        None
    }
}

/// What a call of the reader found.
#[derive(Clone, Copy, Debug, PartialEq, Eq, Structural)]
pub enum HostReceive {
    /// A datagram of this length is in the buffer.
    Received(usize),
    /// There is none; the reader waits.
    Pending,
    /// The path is gone.
    NetworkDown,
    /// The call came without a buffer.
    NoBuffer,
    /// The buffer is smaller than the datagram.
    BufferTooSmall {
        /// The length of the datagram.
        required: usize,
        /// The length of the buffer.
        capacity: usize,
    },
}

/// What a call of the reader with a buffer of `room` bytes finds.
pub open spec fn receive_outcome(state: HostSocketModel, has_buffer: bool, room: int) -> HostReceive {
    if state.unavailable {
        HostReceive::NetworkDown
    } else if !has_buffer {
        HostReceive::NoBuffer
    } else if state.ingress.len() == 0 {
        HostReceive::Pending
    } else if state.ingress[0].len() > room {
        HostReceive::BufferTooSmall { required: state.ingress[0].len() as usize, capacity: room as usize }
    } else {
        HostReceive::Received(state.ingress[0].len() as usize)
    }
}

/// What a call of the writer did.
#[derive(Clone, Copy, Debug, PartialEq, Eq, Structural)]
pub enum HostSend {
    /// The datagram is in the queue.
    Sent,
    /// The queue is full; the writer waits.
    Pending,
    /// The path is gone.
    NetworkDown,
    /// The datagram is for another peer, or from another address.
    WrongPath,
    /// The datagram is to be cut into segments, which the socket does not do.
    Segmented,
    /// The datagram is empty or too large.
    OutsideMtu,
}

/// What a call of the writer does.
pub open spec fn send_outcome(
    state: HostSocketModel,
    destination: SocketAddress,
    source: Option<IpAddress>,
    segmented: bool,
    length: int,
) -> HostSend {
    if state.unavailable {
        HostSend::NetworkDown
    } else if destination != state.peer || source is Some && source != Some(state.local.ip) {
        HostSend::WrongPath
    } else if segmented {
        HostSend::Segmented
    } else if length == 0 || length > state.mtu {
        HostSend::OutsideMtu
    } else if state.egress.len() >= state.capacity {
        HostSend::Pending
    } else {
        HostSend::Sent
    }
}

/// Who has to be woken after a call.
#[derive(Clone, Copy, Debug, PartialEq, Eq, Structural)]
pub struct Wakes {
    /// The reader.
    pub receiver: bool,
    /// The writer.
    pub sender: bool,
}

impl HostDatagramSocket {
    /// Both queues are within their bounds.
    pub closed spec fn wf(&self) -> bool {
        &&& self.ingress.wf()
        &&& self.egress.wf()
        &&& self.egress.limit() == self.ingress.limit()
        &&& self@.valid()
    }

    /// What well-formed means for the content.
    pub proof fn lemma_wf(&self)
        requires
            self.wf(),
        ensures
            self@.valid(),
    {
    }

    /// Creates a fixed-peer socket with ingress and egress queues.
    ///
    /// `packet_capacity` is the number of datagrams in each direction. `mtu` is the maximum
    /// size of one datagram and must be nonzero. The two directions reserve
    /// `packet_capacity * mtu` bytes each.
    pub fn new(local: SocketAddress, peer: SocketAddress, packet_capacity: usize, mtu: usize) -> (result: Result<
        Self,
        HostDatagramError,
    >)
        ensures
            if packet_capacity == 0 {
                result == Err::<Self, HostDatagramError>(HostDatagramError::ZeroCapacity)
            } else if mtu == 0 {
                result == Err::<Self, HostDatagramError>(HostDatagramError::ZeroMtu)
            } else if packet_capacity * mtu > usize::MAX {
                result == Err::<Self, HostDatagramError>(HostDatagramError::BudgetOverflow)
            } else {
                result matches Ok(socket) && socket.wf() && socket@ == (HostSocketModel {
                    local,
                    peer,
                    mtu: mtu as int,
                    capacity: packet_capacity as int,
                    ingress: Seq::empty(),
                    egress: Seq::empty(),
                    unavailable: false,
                    receiver_waits: false,
                    sender_waits: false,
                })
            },
    {
        if packet_capacity == 0 {
            return Err(HostDatagramError::ZeroCapacity);
        }
        if mtu == 0 {
            return Err(HostDatagramError::ZeroMtu);
        }
        if packet_capacity.checked_mul(mtu).is_none() {
            return Err(HostDatagramError::BudgetOverflow);
        }
        Ok(
            HostDatagramSocket {
                local,
                peer,
                mtu,
                ingress: PacketQueue::new(packet_capacity),
                egress: PacketQueue::new(packet_capacity),
                unavailable: false,
                receiver_waits: false,
                sender_waits: false,
            },
        )
    }

    /// Permanently marks this underlay path unavailable and wakes pending endpoint I/O.
    pub fn mark_unavailable(&mut self) -> (wakes: Wakes)
        requires
            old(self).wf(),
        ensures
            final(self).wf(),
            final(self)@ == withdrawn(old(self)@),
            wakes == (if old(self)@.unavailable {
                Wakes { receiver: false, sender: false }
            } else {
                Wakes { receiver: old(self)@.receiver_waits, sender: old(self)@.sender_waits }
            }),
    {
        if self.unavailable {
            return Wakes { receiver: false, sender: false };
        }
        let wakes = Wakes { receiver: self.receiver_waits, sender: self.sender_waits };
        self.unavailable = true;
        self.receiver_waits = false;
        self.sender_waits = false;
        wakes
    }

    /// Copies one host-owned datagram into the QUIC receive queue. The result says whether
    /// the reader has to be woken.
    pub fn ingress_datagram(&mut self, packet: &[u8]) -> (result: Result<bool, HostDatagramError>)
        requires
            old(self).wf(),
        ensures
            final(self).wf(),
            ingress_done(old(self)@, old(self)@.peer, packet@, result, final(self)@),
    {
        let peer: SocketAddress = self.peer;
        self.ingress_datagram_from(peer, packet)
    }

    /// Copies one datagram after checking the host-observed source address.
    ///
    /// Use this form when the platform API exposes the underlay source address. It prevents
    /// a packet for another path from being relabeled as this socket's fixed peer.
    pub fn ingress_datagram_from(&mut self, source: SocketAddress, packet: &[u8]) -> (result: Result<
        bool,
        HostDatagramError,
    >)
        requires
            old(self).wf(),
        ensures
            final(self).wf(),
            ingress_done(old(self)@, source, packet@, result, final(self)@),
    {
        if self.unavailable {
            return Err(HostDatagramError::Unavailable);
        }
        if source != self.peer {
            return Err(HostDatagramError::PeerMismatch { expected: self.peer, actual: source });
        }
        if packet.len() == 0 || packet.len() > self.mtu {
            return Err(HostDatagramError::PacketOutsideMtu { len: packet.len(), mtu: self.mtu });
        }
        if !self.ingress.push_copy(packet) {
            return Err(HostDatagramError::QueueFull);
        }
        let wake: bool = self.receiver_waits;
        self.receiver_waits = false;
        Ok(wake)
    }

    /// Copies one queued QUIC datagram into a host-owned output buffer. The second part of
    /// the result says whether the writer has to be woken.
    ///
    /// A too-small output buffer leaves the datagram queued.
    pub fn poll_egress_datagram_into(&mut self, output: &mut [u8]) -> (result: Result<
        Option<(usize, bool)>,
        HostDatagramError,
    >)
        requires
            old(self).wf(),
        ensures
            final(self).wf(),
            egress_done(old(self)@, old(output)@, result, final(self)@, final(output)@),
    {
        if self.unavailable {
            return Err(HostDatagramError::Unavailable);
        }
        let capacity: usize = output.len();
        match self.egress.pop_into(output) {
            Ok(Some(length)) => {
                let wake: bool = self.sender_waits;
                self.sender_waits = false;
                assert(queue_fits(self@.egress, self@.capacity, self@.mtu)) by {
                    assert forall|index: int| 0 <= index < self@.egress.len() implies 0 < (
                    #[trigger] self@.egress[index]).len() <= self@.mtu by {
                        assert(self@.egress[index] == old(self)@.egress[index + 1]);
                    }
                }
                Ok(Some((length, wake)))
            },
            Ok(None) => Ok(None),
            Err(required) => Err(HostDatagramError::BufferTooSmall { required, capacity }),
        }
    }

    /// Gives the reader the next datagram. Without one the reader waits.
    pub fn receive(&mut self, has_buffer: bool, output: &mut [u8]) -> (outcome: HostReceive)
        requires
            old(self).wf(),
        ensures
            final(self).wf(),
            outcome == receive_outcome(old(self)@, has_buffer, old(output)@.len() as int),
            match outcome {
                HostReceive::Received(length) => final(self)@ == (HostSocketModel {
                    ingress: old(self)@.ingress.skip(1),
                    ..old(self)@
                }) && final(output)@ == old(self)@.ingress[0] + old(output)@.skip(length as int),
                HostReceive::Pending => final(self)@ == (HostSocketModel { receiver_waits: true, ..old(self)@ })
                    && final(output)@ == old(output)@,
                _ => final(self)@ == old(self)@ && final(output)@ == old(output)@,
            },
    {
        if self.unavailable {
            return HostReceive::NetworkDown;
        }
        if !has_buffer {
            return HostReceive::NoBuffer;
        }
        let capacity: usize = output.len();
        match self.ingress.pop_into(output) {
            Ok(Some(length)) => {
                assert(queue_fits(self@.ingress, self@.capacity, self@.mtu)) by {
                    assert forall|index: int| 0 <= index < self@.ingress.len() implies 0 < (
                    #[trigger] self@.ingress[index]).len() <= self@.mtu by {
                        assert(self@.ingress[index] == old(self)@.ingress[index + 1]);
                    }
                }
                HostReceive::Received(length)
            },
            Ok(None) => {
                self.receiver_waits = true;
                HostReceive::Pending
            },
            Err(required) => HostReceive::BufferTooSmall { required, capacity },
        }
    }

    /// Takes a datagram of the writer. Without room the writer waits.
    pub fn send(
        &mut self,
        destination: SocketAddress,
        source: Option<IpAddress>,
        segment_size: Option<usize>,
        contents: &[u8],
    ) -> (outcome: HostSend)
        requires
            old(self).wf(),
        ensures
            final(self).wf(),
            outcome == send_outcome(
                old(self)@,
                destination,
                source,
                segment_size is Some,
                contents@.len() as int,
            ),
            final(self)@ == (match outcome {
                HostSend::Sent => HostSocketModel { egress: old(self)@.egress.push(contents@), ..old(self)@ },
                HostSend::Pending => HostSocketModel { sender_waits: true, ..old(self)@ },
                _ => old(self)@,
            }),
    {
        if self.unavailable {
            return HostSend::NetworkDown;
        }
        if destination != self.peer {
            return HostSend::WrongPath;
        }
        if let Some(address) = source {
            if address != self.local.ip {
                return HostSend::WrongPath;
            }
        }
        if segment_size.is_some() {
            return HostSend::Segmented;
        }
        if contents.len() == 0 || contents.len() > self.mtu {
            return HostSend::OutsideMtu;
        }
        if self.egress.push_copy(contents) {
            HostSend::Sent
        } else {
            self.sender_waits = true;
            HostSend::Pending
        }
    }

    /// Returns the local address presented to the QUIC endpoint.
    pub fn local_addr(&self) -> (address: SocketAddress)
        ensures
            address == self@.local,
    {
        self.local
    }

    /// Returns the only remote peer accepted by this carrier.
    pub fn peer_addr(&self) -> (address: SocketAddress)
        ensures
            address == self@.peer,
    {
        self.peer
    }

    /// Returns the maximum host datagram size accepted by this carrier.
    pub fn mtu(&self) -> (mtu: usize)
        ensures
            mtu == self@.mtu,
    {
        self.mtu
    }
}

/// What `ingress_datagram_from` does.
pub open spec fn ingress_done(
    before: HostSocketModel,
    source: SocketAddress,
    packet: Seq<u8>,
    result: Result<bool, HostDatagramError>,
    after: HostSocketModel,
) -> bool {
    match ingress_refusal(before, source, packet.len() as int) {
        Some(error) => result == Err::<bool, HostDatagramError>(error) && after == before,
        None => result == Ok::<bool, HostDatagramError>(before.receiver_waits) && after == (HostSocketModel {
            ingress: before.ingress.push(packet),
            receiver_waits: false,
            ..before
        }),
    }
}

/// What `poll_egress_datagram_into` does.
pub open spec fn egress_done(
    before: HostSocketModel,
    output_before: Seq<u8>,
    result: Result<Option<(usize, bool)>, HostDatagramError>,
    after: HostSocketModel,
    output_after: Seq<u8>,
) -> bool {
    if before.unavailable {
        result == Err::<Option<(usize, bool)>, HostDatagramError>(HostDatagramError::Unavailable) && after == before
            && output_after == output_before
    } else if before.egress.len() == 0 {
        result == Ok::<Option<(usize, bool)>, HostDatagramError>(None) && after == before && output_after
            == output_before
    } else if before.egress[0].len() > output_before.len() {
        result == Err::<Option<(usize, bool)>, HostDatagramError>(
            HostDatagramError::BufferTooSmall {
                required: before.egress[0].len() as usize,
                capacity: output_before.len() as usize,
            },
        ) && after == before && output_after == output_before
    } else {
        &&& result == Ok::<Option<(usize, bool)>, HostDatagramError>(
            Some((before.egress[0].len() as usize, before.sender_waits)),
        )
        &&& after == (HostSocketModel { egress: before.egress.skip(1), sender_waits: false, ..before })
        &&& output_after == before.egress[0] + output_before.skip(before.egress[0].len() as int)
    }
}

/// Datagrams come out as they went in, and in that order: the oldest is read first, and a
/// newer one is the next to be read once the older ones are.
pub proof fn law_datagrams_keep_their_order(queue: Seq<Seq<u8>>, packet: Seq<u8>)
    ensures
        queue.push(packet)[queue.len() as int] == packet,
        queue.len() > 0 ==> queue.push(packet)[0] == queue[0] && queue.push(packet).skip(1) == queue.skip(1).push(
            packet,
        ),
        queue.push(packet).skip(queue.len() as int) == seq![packet],
{
    assert(queue.push(packet).skip(queue.len() as int) =~= seq![packet]);
    if queue.len() > 0 {
        assert(queue.push(packet).skip(1) =~= queue.skip(1).push(packet));
    }
}

/// A path that is gone carries nothing: every call says so, and no datagram gets in.
pub proof fn law_unavailable_path_carries_nothing(
    state: HostSocketModel,
    source: SocketAddress,
    destination: SocketAddress,
    from: Option<IpAddress>,
    segmented: bool,
    length: int,
    has_buffer: bool,
)
    requires
        state.unavailable,
    ensures
        ingress_refusal(state, source, length) == Some(HostDatagramError::Unavailable),
        receive_outcome(state, has_buffer, length) == HostReceive::NetworkDown,
        send_outcome(state, destination, from, segmented, length) == HostSend::NetworkDown,
{
}

/// A datagram from anyone but the peer is never taken for the peer's.
pub proof fn law_foreign_sources_are_refused(state: HostSocketModel, source: SocketAddress, length: int)
    requires
        source != state.peer,
        !state.unavailable,
    ensures
        ingress_refusal(state, source, length) == Some(
            HostDatagramError::PeerMismatch { expected: state.peer, actual: source },
        ),
{
}

}
