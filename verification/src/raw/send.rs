//! Cutting datagrams into segments and sending them as batches of packets.
use crate::address::{IpAddress, SocketAddress};
use crate::faketcp::carrier;
use crate::faketcp::carrier::{CarrierModel, FakeTcpCarrier};
use crate::faketcp::encode;
use crate::faketcp::error::CarrierError;
use crate::faketcp::flags::TcpFlags;
use crate::faketcp::tuple::FourTuple;
use crate::raw::error::RawError;
use vstd::prelude::*;

verus! {

/// How an adapter hands packets to the system: with their IP header, or without.
#[derive(Clone, Copy, Debug, PartialEq, Eq, Structural)]
pub enum RawSendMode {
    /// The system writes the IP header.
    Ip,
    /// The packet is sent as it is.
    Packet,
}

/// How many segments of `size` bytes `length` bytes make.
pub open spec fn segments_of(length: int, size: int) -> int {
    if length % size == 0 {
        length / size
    } else {
        length / size + 1
    }
}

/// How many segments of `size` bytes `length` bytes make.
pub(crate) fn segment_count(length: usize, size: usize) -> (count: usize)
    requires
        size > 0,
    ensures
        count == segments_of(length as int, size as int),
{
    let whole: usize = length / size;
    if length % size == 0 {
        whole
    } else {
        proof {
            vstd::arithmetic::div_mod::lemma_fundamental_div_mod(length as int, size as int);
            assert(whole < usize::MAX) by {
                if whole == usize::MAX {
                    assert(size * whole >= whole) by (nonlinear_arith)
                        requires size >= 1;
                }
            }
        }
        whole + 1
    }
}

/// The segment at position `index`; the last one may be shorter.
pub open spec fn segment_at(contents: Seq<u8>, size: int, index: int) -> Seq<u8> {
    let start = index * size;
    let end = start + size;
    contents.subrange(
        start,
        if end < contents.len() {
            end
        } else {
            contents.len() as int
        },
    )
}

/// Where the segment at position `index` lies.
pub fn segment_range(length: usize, size: usize, index: usize) -> (range: (usize, usize))
    requires
        size > 0,
        index < segments_of(length as int, size as int),
    ensures
        range.0 == index * size,
        range.0 <= range.1 <= length,
        range.1 == (if index * size + size < length {
            index * size + size
        } else {
            length as int
        }),
        range.1 - range.0 <= size,
{
    proof {
        lemma_segment_start(length as int, size as int, index as int);
    }
    let start: usize = index * size;
    let end: usize = if length - start > size {
        start + size
    } else {
        length
    };
    (start, end)
}

proof fn lemma_segment_start(length: int, size: int, index: int)
    requires
        size > 0,
        length >= 0,
        0 <= index < segments_of(length, size),
    ensures
        0 <= index * size < length,
{
    vstd::arithmetic::div_mod::lemma_fundamental_div_mod(length, size);
    let whole = length / size;
    assert(size * whole == whole * size) by (nonlinear_arith);
    assert(0 <= index * size) by (nonlinear_arith)
        requires index >= 0, size > 0;
    if length % size == 0 {
        assert(index * size < whole * size) by (nonlinear_arith)
            requires index < whole, size > 0;
    } else {
        assert(index * size <= whole * size) by (nonlinear_arith)
            requires index <= whole, size > 0;
    }
}

/// One datagram on its way out: its packet and the carrier behind it, or why it is
/// refused. A carrier that has not sent its SYN sends it first, with an acknowledgment
/// where it is the server's.
#[verifier::opaque]
pub open spec fn carried(state: CarrierModel, server_side: bool, datagram: Seq<u8>, room: int) -> Result<
    (Seq<u8>, CarrierModel),
    CarrierError,
> {
    let bits = outgoing_flags(state, server_side);
    let refusal = if state.sent_syn {
        None
    } else {
        carrier::syn_refusal(state)
    };
    match refusal {
        Some(error) => Err(error),
        None => match carrier::write_refusal(state, bits, datagram, room) {
            Some(error) => Err(error),
            None => {
                let moved = carrier::after_sending(state, bits, datagram.len() as int);
                Ok(
                    (
                        carrier::carrier_packet(state, bits, datagram),
                        if state.sent_syn {
                            moved
                        } else {
                            carrier::after_syn(moved)
                        },
                    ),
                )
            },
        },
    }
}

/// The flags of the next packet.
pub open spec fn outgoing_flags(state: CarrierModel, server_side: bool) -> TcpFlags {
    if state.sent_syn {
        TcpFlags(0x18)
    } else if server_side {
        TcpFlags(0x12)
    } else {
        TcpFlags(0x02)
    }
}

/// `count` consecutive segments on their way out.
pub open spec fn carried_batch(
    state: CarrierModel,
    server_side: bool,
    contents: Seq<u8>,
    size: int,
    first: int,
    count: int,
    room: int,
) -> Result<(Seq<Seq<u8>>, CarrierModel), CarrierError>
    decreases count,
{
    if count <= 0 {
        Ok((Seq::empty(), state))
    } else {
        match carried_batch(state, server_side, contents, size, first, count - 1, room) {
            Err(error) => Err(error),
            Ok((packets, current)) => match carried(
                current,
                server_side,
                segment_at(contents, size, first + count - 1),
                room,
            ) {
                Err(error) => Err(error),
                Ok((packet, next)) => Ok((packets.push(packet), next)),
            },
        }
    }
}

/// The carrier behind as many of `count` segments as it takes, up to the first that it
/// refuses.
pub open spec fn carried_state(
    state: CarrierModel,
    server_side: bool,
    contents: Seq<u8>,
    size: int,
    first: int,
    count: int,
    room: int,
) -> CarrierModel
    decreases count,
{
    if count <= 0 {
        state
    } else {
        match carried_batch(state, server_side, contents, size, first, count - 1, room) {
            Err(_) => carried_state(state, server_side, contents, size, first, count - 1, room),
            Ok((_, current)) => match carried(
                current,
                server_side,
                segment_at(contents, size, first + count - 1),
                room,
            ) {
                Err(_) => current,
                Ok((_, next)) => next,
            },
        }
    }
}

proof fn lemma_batch_fails(
    state: CarrierModel,
    server_side: bool,
    contents: Seq<u8>,
    size: int,
    first: int,
    part: int,
    count: int,
    room: int,
)
    requires
        0 <= part <= count,
        carried_batch(state, server_side, contents, size, first, part, room) is Err,
    ensures
        carried_batch(state, server_side, contents, size, first, count, room) == carried_batch(
            state,
            server_side,
            contents,
            size,
            first,
            part,
            room,
        ),
        carried_state(state, server_side, contents, size, first, count, room) == carried_state(
            state,
            server_side,
            contents,
            size,
            first,
            part,
            room,
        ),
    decreases count - part,
{
    if part < count {
        lemma_batch_fails(state, server_side, contents, size, first, part, count - 1, room);
    }
}

/// Writes the next packet of a carrier into `output`.
pub fn encode_next(outbound: &mut FakeTcpCarrier, server_side: bool, datagram: &[u8], output: &mut [u8]) -> (result: Result<
    usize,
    CarrierError,
>)
    requires
        old(outbound).wf(),
    ensures
        final(outbound).wf(),
        final(output)@.len() == old(output)@.len(),
        match carried(old(outbound)@, server_side, datagram@, old(output)@.len() as int) {
            Err(error) => result == Err::<usize, CarrierError>(error) && final(outbound)@ == old(outbound)@,
            Ok((packet, next)) => result == Ok::<usize, CarrierError>(packet.len() as usize) && packet.len()
                <= old(output)@.len() && final(outbound)@ == next && final(output)@ == packet + old(output)@.skip(
                packet.len() as int,
            ),
        },
{
    proof {
        reveal(carried);
        outbound.lemma_wf();
        carrier::lemma_carrier_packet_length(
            outbound@,
            outgoing_flags(outbound@, server_side),
            datagram@,
        );
    }
    if outbound.sent_syn() {
        outbound.encode_datagram_into(datagram, output)
    } else if server_side {
        outbound.encode_syn_ack_into(datagram, output)
    } else {
        outbound.encode_syn_into(datagram, output)
    }
}

/// The room that a packet with `size` bytes of datagram may need.
pub open spec fn packet_room(source: IpAddress, size: int) -> int {
    size + encode::ip_header_length(source) + 20 + 40
}

/// What an adapter is about to send of one datagram, or of several in one buffer.
pub struct BatchSender {
    tuple: FourTuple,
    server_side: bool,
    batch_size: usize,
    storage: Vec<u8>,
    lengths: Vec<usize>,
    capacity: usize,
    sent: usize,
    segment: usize,
    segments: usize,
    segment_size: usize,
}

/// The content of a sender.
#[verifier::ext_equal]
pub ghost struct SenderModel {
    /// The path.
    pub tuple: FourTuple,
    /// Whether the server sends here.
    pub server_side: bool,
    /// How many packets make a batch at most.
    pub batch_size: int,
    /// The packets of the current batch.
    pub packets: Seq<Seq<u8>>,
    /// The room between two packets of the batch, if there is a batch.
    pub capacity: int,
    /// How many packets of the batch are sent.
    pub sent: int,
    /// How many segments are sent.
    pub segment: int,
    /// How many segments there are.
    pub segments: int,
    /// The size of a segment.
    pub segment_size: int,
}

/// The packets that lie in the send storage, one every `capacity` bytes.
pub open spec fn packets_in(storage: Seq<u8>, lengths: Seq<usize>, capacity: int) -> Seq<Seq<u8>> {
    Seq::new(
        lengths.len(),
        |index: int| storage.subrange(index * capacity, index * capacity + lengths[index]),
    )
}

/// A sender with nothing to send.
pub open spec fn idle_sender(tuple: FourTuple, server_side: bool, batch_size: int) -> SenderModel {
    SenderModel {
        tuple,
        server_side,
        batch_size,
        packets: Seq::empty(),
        capacity: 0,
        sent: 0,
        segment: 0,
        segments: 0,
        segment_size: 0,
    }
}

/// Whether a datagram belongs to the path of the sender, and how it is refused if it does
/// not.
pub open spec fn path_refusal(tuple: FourTuple, destination: SocketAddress, source: Option<IpAddress>) -> Option<
    RawError,
> {
    if destination != tuple.destination {
        Some(RawError::DestinationMismatch)
    } else if source is Some && source != Some(tuple.source.ip) {
        Some(RawError::SourceMismatch)
    } else {
        None
    }
}

/// What `BatchSender::begin` does: a sender with nothing under way takes up the datagram.
pub open spec fn begun(
    state: SenderModel,
    destination: SocketAddress,
    source: Option<IpAddress>,
    length: int,
    segment_size: Option<usize>,
) -> Result<SenderModel, RawError> {
    let size = match segment_size {
        Some(size) => size as int,
        None => length,
    };
    match path_refusal(state.tuple, destination, source) {
        Some(error) => Err(error),
        None => if state.segments != 0 {
            Ok(state)
        } else if size == 0 {
            Err(RawError::InvalidSegmentation)
        } else {
            Ok(SenderModel { segment_size: size, segments: segments_of(length, size), ..state })
        },
    }
}

/// How many packets the next batch has.
pub open spec fn next_batch(state: SenderModel) -> int {
    if state.segments - state.segment < state.batch_size {
        state.segments - state.segment
    } else {
        state.batch_size
    }
}

/// What `BatchSender::prepare` does: the next batch of segments is carried.
pub open spec fn prepared(state: SenderModel, outbound: CarrierModel, contents: Seq<u8>) -> Result<
    (SenderModel, CarrierModel),
    RawError,
> {
    let room = packet_room(state.tuple.source.ip, state.segment_size);
    let count = next_batch(state);
    if state.packets.len() > 0 {
        Ok((state, outbound))
    } else if room > usize::MAX {
        Err(RawError::PacketCapacityOverflow)
    } else if room * count > usize::MAX {
        Err(RawError::BatchCapacityOverflow)
    } else {
        match carried_batch(
            outbound,
            state.server_side,
            contents,
            state.segment_size,
            state.segment,
            count,
            room,
        ) {
            Err(error) => Err(RawError::Carrier(error)),
            Ok((packets, next)) => Ok((SenderModel { packets, capacity: room, sent: 0, ..state }, next)),
        }
    }
}

/// How far sending got.
#[derive(Clone, Copy, Debug, PartialEq, Eq, Structural)]
pub enum SendStep {
    /// There is more to send.
    Continue,
    /// Every segment is sent.
    Done,
}

/// What `BatchSender::after_send` does: `count` more packets of the batch are sent.
pub open spec fn advanced(state: SenderModel, count: int) -> Result<(SenderModel, SendStep), RawError> {
    if count == 0 {
        Err(RawError::NothingSent)
    } else {
        let moved = SenderModel { sent: state.sent + count, segment: state.segment + count, ..state };
        let batch = if moved.sent == moved.packets.len() {
            SenderModel { packets: Seq::empty(), capacity: 0, sent: 0, ..moved }
        } else {
            moved
        };
        if batch.segment == batch.segments {
            Ok((SenderModel { segment: 0, segments: 0, segment_size: 0, ..batch }, SendStep::Done))
        } else {
            Ok((batch, SendStep::Continue))
        }
    }
}

impl View for BatchSender {
    type V = SenderModel;

    closed spec fn view(&self) -> SenderModel {
        SenderModel {
            tuple: self.tuple,
            server_side: self.server_side,
            batch_size: self.batch_size as int,
            packets: packets_in(self.storage@, self.lengths@, self.capacity as int),
            capacity: self.capacity as int,
            sent: self.sent as int,
            segment: self.segment as int,
            segments: self.segments as int,
            segment_size: self.segment_size as int,
        }
    }
}

impl BatchSender {
    /// A batch lies in the storage, has something left to send, and belongs to the
    /// segments that are left.
    pub closed spec fn wf(&self) -> bool {
        &&& self.batch_size > 0
        &&& self.segment <= self.segments
        &&& self.segments > 0 ==> self.segment < self.segments && self.segment_size > 0
        &&& self.lengths@.len() == 0 ==> self.sent == 0
        &&& self.lengths@.len() > 0 ==> self.sent < self.lengths@.len() && self.lengths@.len() - self.sent
            <= self.segments - self.segment
        &&& forall|index: int|
            0 <= index < self.lengths@.len() ==> index * self.capacity + #[trigger] self.lengths@[index]
                <= self.storage@.len()
    }

    /// What well-formed means for the content.
    pub proof fn lemma_wf(&self)
        requires
            self.wf(),
        ensures
            self@.batch_size > 0,
            0 <= self@.segment <= self@.segments <= usize::MAX,
            self@.segments > 0 ==> self@.segment < self@.segments && self@.segment_size > 0,
            self@.packets.len() == 0 ==> self@.sent == 0,
            self@.packets.len() > 0 ==> 0 <= self@.sent < self@.packets.len() && self@.packets.len() - self@.sent
                <= self@.segments - self@.segment,
    {
    }

    /// A sender with nothing to send, for batches of at most `batch_size` packets.
    pub fn new(given: FourTuple, server_side: bool, batch_size: usize) -> (sender: Self)
        requires
            batch_size > 0,
        ensures
            sender.wf(),
            sender@ == idle_sender(given, server_side, batch_size as int),
    {
        BatchSender {
            tuple: given,
            server_side,
            batch_size,
            storage: Vec::new(),
            lengths: Vec::new(),
            capacity: 0,
            sent: 0,
            segment: 0,
            segments: 0,
            segment_size: 0,
        }
    }

    /// Takes up a datagram of `length` bytes, to be cut into segments of `segment_size`
    /// bytes. A datagram that is under way goes on.
    pub fn begin(
        &mut self,
        destination: SocketAddress,
        source: Option<IpAddress>,
        length: usize,
        segment_size: Option<usize>,
    ) -> (result: Result<(), RawError>)
        requires
            old(self).wf(),
        ensures
            final(self).wf(),
            match begun(old(self)@, destination, source, length as int, segment_size) {
                Ok(state) => result is Ok && final(self)@ == state,
                Err(error) => result == Err::<(), RawError>(error) && final(self)@ == old(self)@,
            },
    {
        if destination != self.tuple.destination {
            return Err(RawError::DestinationMismatch);
        }
        if let Some(address) = source {
            if address != self.tuple.source.ip {
                return Err(RawError::SourceMismatch);
            }
        }
        if self.segments == 0 {
            let size: usize = match segment_size {
                Some(size) => size,
                None => length,
            };
            if size == 0 {
                return Err(RawError::InvalidSegmentation);
            }
            self.segment_size = size;
            self.segments = segment_count(length, size);
        }
        Ok(())
    }

    /// Carries the next batch of segments, unless a batch is under way. A refusal leaves
    /// the sender without a batch; the carrier has then moved past the segments before
    /// the refused one.
    pub fn prepare(&mut self, outbound: &mut FakeTcpCarrier, contents: &[u8]) -> (result: Result<(), RawError>)
        requires
            old(self).wf(),
            old(outbound).wf(),
            old(self)@.segment_size > 0,
            old(self)@.segments <= segments_of(contents@.len() as int, old(self)@.segment_size),
        ensures
            final(self).wf(),
            final(outbound).wf(),
            match prepared(old(self)@, old(outbound)@, contents@) {
                Ok((state, next)) => result is Ok && final(self)@ == state && final(outbound)@ == next,
                Err(error) => result == Err::<(), RawError>(error) && final(self)@ == old(self)@,
            },
            result is Err ==> final(outbound)@ == (if result->Err_0 is Carrier {
                carried_state(
                    old(outbound)@,
                    old(self)@.server_side,
                    contents@,
                    old(self)@.segment_size,
                    old(self)@.segment,
                    next_batch(old(self)@),
                    packet_room(old(self)@.tuple.source.ip, old(self)@.segment_size),
                )
            } else {
                old(outbound)@
            }),
    {
        if self.lengths.len() > 0 {
            return Ok(());
        }
        let headers: usize = if self.tuple.source.ip.is_ipv4() {
            encode::IPV4_HEADER_BYTES
        } else {
            encode::IPV6_HEADER_BYTES
        } + 60;
        let remaining: usize = self.segments - self.segment;
        let count: usize = if remaining < self.batch_size {
            remaining
        } else {
            self.batch_size
        };
        let capacity: usize = match self.segment_size.checked_add(headers) {
            Some(capacity) => capacity,
            None => return Err(RawError::PacketCapacityOverflow),
        };
        let storage_length: usize = match capacity.checked_mul(count) {
            Some(length) => length,
            None => return Err(RawError::BatchCapacityOverflow),
        };
        let mut storage: Vec<u8> = Vec::new();
        std::mem::swap(&mut storage, &mut self.storage);
        if storage.len() < storage_length {
            storage.resize(storage_length, 0);
        }
        let mut lengths: Vec<usize> = Vec::new();
        assert(count * capacity == capacity * count) by (nonlinear_arith);
        let outcome = fill_batch(
            outbound,
            self.server_side,
            contents,
            self.segment_size,
            self.segment,
            count,
            capacity,
            &mut storage,
            &mut lengths,
        );
        self.storage = storage;
        match outcome {
            Ok(()) => {
                self.lengths = lengths;
                self.sent = 0;
                self.capacity = capacity;
                Ok(())
            },
            Err(error) => {
                assert(self@.packets =~= old(self)@.packets);
                Err(RawError::Carrier(error))
            },
        }
    }

    /// The packets of the batch that are not yet sent, as `send_batch` takes them: the
    /// storage, the room between two packets, their lengths, and the first one.
    pub fn batch(&self) -> (batch: (&[u8], usize, &[usize], usize))
        requires
            self.wf(),
        ensures
            packets_in(batch.0@, batch.2@, batch.1 as int) == self@.packets,
            batch.1 == self@.capacity,
            batch.3 == self@.sent,
            forall|index: int|
                0 <= index < batch.2@.len() ==> index * batch.1 + #[trigger] batch.2@[index] <= batch.0@.len(),
    {
        (self.storage.as_slice(), self.capacity, self.lengths.as_slice(), self.sent)
    }

    /// Counts packets that were sent.
    pub fn after_send(&mut self, count: usize) -> (result: Result<SendStep, RawError>)
        requires
            old(self).wf(),
            count <= old(self)@.packets.len() - old(self)@.sent,
        ensures
            final(self).wf(),
            match advanced(old(self)@, count as int) {
                Ok((state, step)) => result == Ok::<SendStep, RawError>(step) && final(self)@ == state,
                Err(error) => result == Err::<SendStep, RawError>(error) && final(self)@ == old(self)@,
            },
    {
        if count == 0 {
            return Err(RawError::NothingSent);
        }
        assert(self.lengths.len() == self.lengths@.len());
        self.sent = self.sent + count;
        self.segment = self.segment + count;
        if self.sent == self.lengths.len() {
            self.lengths.clear();
            self.sent = 0;
            self.capacity = 0;
            assert(self@.packets =~= Seq::empty());
        }
        if self.segment == self.segments {
            self.segment = 0;
            self.segments = 0;
            self.segment_size = 0;
            Ok(SendStep::Done)
        } else {
            Ok(SendStep::Continue)
        }
    }
}

proof fn lemma_batch_grows(
    before: Seq<u8>,
    after: Seq<u8>,
    lengths: Seq<usize>,
    length: usize,
    at: int,
    capacity: int,
)
    requires
        before.len() == after.len(),
        at == lengths.len() * capacity,
        capacity >= 0,
        length <= capacity,
        at + capacity <= before.len(),
        forall|index: int| 0 <= index < at ==> after[index] == before[index],
        forall|position: int| 0 <= position < lengths.len() ==> #[trigger] lengths[position] <= capacity,
    ensures
        packets_in(after, lengths.push(length), capacity) == packets_in(before, lengths, capacity).push(
            after.subrange(at, at + length),
        ),
{
    let packets = packets_in(before, lengths, capacity);
    let next = packets_in(after, lengths.push(length), capacity);
    assert forall|position: int| 0 <= position < lengths.len() implies #[trigger] next[position]
        == packets[position] by {
        assert(position * capacity + capacity <= lengths.len() * capacity) by (nonlinear_arith)
            requires position + 1 <= lengths.len(), capacity >= 0;
        assert(position * capacity >= 0) by (nonlinear_arith)
            requires position >= 0, capacity >= 0;
        assert(lengths.push(length)[position] == lengths[position] <= capacity);
        assert(next[position] =~= packets[position]);
    }
    assert(next[lengths.len() as int] == after.subrange(at, at + length));
    assert(next =~= packets.push(after.subrange(at, at + length)));
}

/// Writes `count` consecutive segments into `storage`, one packet every `capacity` bytes.
#[verifier::rlimit(60)]
#[verifier::spinoff_prover]
fn fill_batch(
    outbound: &mut FakeTcpCarrier,
    server_side: bool,
    contents: &[u8],
    size: usize,
    first: usize,
    count: usize,
    capacity: usize,
    storage: &mut Vec<u8>,
    lengths: &mut Vec<usize>,
) -> (result: Result<(), CarrierError>)
    requires
        old(outbound).wf(),
        size > 0,
        first + count <= segments_of(contents@.len() as int, size as int),
        count * capacity <= old(storage)@.len(),
        old(lengths)@.len() == 0,
    ensures
        final(outbound).wf(),
        final(storage)@.len() == old(storage)@.len(),
        match carried_batch(
            old(outbound)@,
            server_side,
            contents@,
            size as int,
            first as int,
            count as int,
            capacity as int,
        ) {
            Err(error) => result == Err::<(), CarrierError>(error) && final(outbound)@ == carried_state(
                old(outbound)@,
                server_side,
                contents@,
                size as int,
                first as int,
                count as int,
                capacity as int,
            ),
            Ok((packets, next)) => {
                &&& result is Ok
                &&& final(outbound)@ == next
                &&& final(lengths)@.len() == count
                &&& packets_in(final(storage)@, final(lengths)@, capacity as int) == packets
                &&& forall|index: int|
                    0 <= index < count ==> index * capacity + #[trigger] final(lengths)@[index]
                        <= final(storage)@.len()
            },
        },
{
    let mut index: usize = 0;
    let ghost start = outbound@;
    assert(packets_in(storage@, lengths@, capacity as int) =~= Seq::empty());
    while index < count
        invariant
            index <= count,
            outbound.wf(),
            size > 0,
            first + count <= segments_of(contents@.len() as int, size as int),
            count * capacity <= storage@.len(),
            storage@.len() == old(storage)@.len(),
            lengths@.len() == index,
            start == old(outbound)@,
            carried_batch(
                start,
                server_side,
                contents@,
                size as int,
                first as int,
                index as int,
                capacity as int,
            ) == Ok::<(Seq<Seq<u8>>, CarrierModel), CarrierError>(
                (packets_in(storage@, lengths@, capacity as int), outbound@),
            ),
            forall|position: int| 0 <= position < index ==> #[trigger] lengths@[position] <= capacity,
        decreases count - index,
    {
        let (from, to) = segment_range(contents.len(), size, first + index);
        assert((index + 1) * capacity <= count * capacity && index * capacity + capacity == (index + 1) * capacity)
            by (nonlinear_arith)
            requires index + 1 <= count, capacity >= 0;
        assert(index * capacity >= 0) by (nonlinear_arith)
            requires index >= 0, capacity >= 0;
        assert(storage.len() == storage@.len());
        let at: usize = index * capacity;
        let ghost before = storage@;
        let ghost known = lengths@;
        let datagram = vstd::slice::slice_subrange(contents, from, to);
        assert(datagram@ == segment_at(contents@, size as int, first + index));
        let outcome = encode_at(outbound, server_side, datagram, storage, at, capacity);
        match outcome {
            Err(error) => {
                proof {
                    lemma_batch_fails(
                        start,
                        server_side,
                        contents@,
                        size as int,
                        first as int,
                        index + 1,
                        count as int,
                        capacity as int,
                    );
                }
                return Err(error);
            },
            Ok(length) => {
                lengths.push(length);
                proof {
                    lemma_batch_grows(before, storage@, known, length, at as int, capacity as int);
                }
            },
        }
        index = index + 1;
    }
    proof {
        assert forall|position: int| 0 <= position < count implies position * capacity + #[trigger] lengths@[position]
            <= storage@.len() by {
            assert(position * capacity + capacity <= count * capacity) by (nonlinear_arith)
                requires position + 1 <= count, capacity >= 0;
        }
    }
    Ok(())
}

/// Writes the next packet of a carrier into `storage`, from `at` on.
pub(crate) fn encode_at(
    outbound: &mut FakeTcpCarrier,
    server_side: bool,
    datagram: &[u8],
    storage: &mut Vec<u8>,
    at: usize,
    capacity: usize,
) -> (result: Result<usize, CarrierError>)
    requires
        old(outbound).wf(),
        at + capacity <= old(storage)@.len(),
    ensures
        final(outbound).wf(),
        final(storage)@.len() == old(storage)@.len(),
        forall|index: int| 0 <= index < at ==> final(storage)@[index] == old(storage)@[index],
        match carried(old(outbound)@, server_side, datagram@, capacity as int) {
            Err(error) => result == Err::<usize, CarrierError>(error) && final(outbound)@ == old(outbound)@,
            Ok((packet, next)) => result == Ok::<usize, CarrierError>(packet.len() as usize) && packet.len()
                <= capacity && final(outbound)@ == next && final(storage)@.subrange(at as int, at + packet.len())
                == packet,
        },
{
    let (_, rest) = storage.as_mut_slice().split_at_mut(at);
    let (output, _) = rest.split_at_mut(capacity);
    encode_next(outbound, server_side, datagram, output)
}

/// The first `count` segments, one behind the other.
pub open spec fn joined(contents: Seq<u8>, size: int, count: int) -> Seq<u8>
    decreases count,
{
    if count <= 0 {
        Seq::empty()
    } else {
        joined(contents, size, count - 1) + segment_at(contents, size, count - 1)
    }
}

proof fn lemma_joined_prefix(contents: Seq<u8>, size: int, count: int)
    requires
        size > 0,
        0 <= count <= segments_of(contents.len() as int, size),
    ensures
        joined(contents, size, count) == contents.take(
            if count * size < contents.len() {
                count * size
            } else {
                contents.len() as int
            },
        ),
    decreases count,
{
    if count == 0 {
        assert(joined(contents, size, 0) =~= contents.take(0));
    } else {
        lemma_joined_prefix(contents, size, count - 1);
        lemma_segment_start(contents.len() as int, size, count - 1);
        assert((count - 1) * size + size == count * size) by (nonlinear_arith);
        let end = if count * size < contents.len() {
            count * size
        } else {
            contents.len() as int
        };
        assert(joined(contents, size, count) =~= contents.take(end));
    }
}

/// The segments of a datagram, one behind the other, are the datagram: nothing is left
/// out and nothing is sent twice.
pub proof fn law_segments_make_the_datagram(contents: Seq<u8>, size: int)
    requires
        size > 0,
    ensures
        joined(contents, size, segments_of(contents.len() as int, size)) == contents,
{
    let count = segments_of(contents.len() as int, size);
    vstd::arithmetic::div_mod::lemma_fundamental_div_mod(contents.len() as int, size);
    let whole = contents.len() as int / size;
    assert(size * whole == whole * size && (whole + 1) * size == whole * size + size) by (nonlinear_arith);
    assert(whole >= 0) by (nonlinear_arith)
        requires whole == contents.len() as int / size, size > 0, contents.len() >= 0;
    lemma_joined_prefix(contents, size, count);
    assert(contents.take(contents.len() as int) =~= contents);
}

}
