//! Where the packets of one system call lie in their storage.
use crate::faketcp::encode;
use crate::raw::error::RawError;
use crate::raw::receive;
use crate::raw::send::RawSendMode;
use vstd::prelude::*;

verus! {

/// How many packets one send call takes at most, where the system takes batches.
pub const SEND_BATCH_SIZE: usize = 10;

/// How many packets one receive call gives at most, where the system gives batches.
pub const RECV_BATCH_SIZE: usize = 8;

/// How many of `held` packets a call sends, from the packet `first` on.
pub open spec fn window(held: int, first: int, limit: int) -> int {
    if held <= first {
        0
    } else if held - first < limit {
        held - first
    } else {
        limit
    }
}

/// The bytes that go out for the packet `index`, or why they cannot: the whole packet, or
/// the part behind its IPv4 header.
pub open spec fn wire_range(
    stored: int,
    capacity: int,
    index: int,
    length: int,
    mode: RawSendMode,
) -> Result<(int, int), RawError> {
    let start = index * capacity;
    if start > usize::MAX {
        Err(RawError::HeaderOffsetOverflow)
    } else if start + length > usize::MAX {
        Err(RawError::HeaderLengthOverflow)
    } else if start + length > stored {
        Err(RawError::PacketExceedsSendStorage)
    } else {
        match mode {
            RawSendMode::Packet => Ok((start, start + length)),
            RawSendMode::Ip => if length < 20 {
                Err(RawError::MissingIpv4Header)
            } else {
                Ok((start + 20, start + length))
            },
        }
    }
}

/// The bytes that go out for `count` packets from `first` on, or why they cannot.
pub open spec fn wire_ranges(
    stored: int,
    capacity: int,
    lengths: Seq<usize>,
    first: int,
    count: int,
    mode: RawSendMode,
) -> Result<Seq<(usize, usize)>, RawError>
    decreases count,
{
    if count <= 0 {
        Ok(Seq::empty())
    } else {
        match wire_ranges(stored, capacity, lengths, first, count - 1, mode) {
            Err(error) => Err(error),
            Ok(ranges) => match wire_range(
                stored,
                capacity,
                first + count - 1,
                lengths[first + count - 1] as int,
                mode,
            ) {
                Err(error) => Err(error),
                Ok((start, end)) => Ok(ranges.push((start as usize, end as usize))),
            },
        }
    }
}

proof fn lemma_wire_ranges_fail(
    stored: int,
    capacity: int,
    lengths: Seq<usize>,
    first: int,
    part: int,
    count: int,
    mode: RawSendMode,
)
    requires
        0 <= part <= count,
        wire_ranges(stored, capacity, lengths, first, part, mode) is Err,
    ensures
        wire_ranges(stored, capacity, lengths, first, count, mode) == wire_ranges(
            stored,
            capacity,
            lengths,
            first,
            part,
            mode,
        ),
    decreases count - part,
{
    if part < count {
        lemma_wire_ranges_fail(stored, capacity, lengths, first, part, count - 1, mode);
    }
}

/// Where the bytes lie that one send call takes: at most `limit` packets from `first` on.
/// A packet lies every `capacity` bytes in a storage of `stored` bytes.
pub fn wire_batch(
    stored: usize,
    capacity: usize,
    lengths: &[usize],
    first: usize,
    limit: usize,
    mode: RawSendMode,
) -> (result: Result<Vec<(usize, usize)>, RawError>)
    ensures
        match wire_ranges(
            stored as int,
            capacity as int,
            lengths@,
            first as int,
            window(lengths@.len() as int, first as int, limit as int),
            mode,
        ) {
            Ok(ranges) => result matches Ok(found) && found@ == ranges,
            Err(error) => result matches Err(found) && found == error,
        },
{
    let mut ranges: Vec<(usize, usize)> = Vec::new();
    assert(lengths.len() == lengths@.len());
    if lengths.len() <= first {
        return Ok(ranges);
    }
    let rest: usize = lengths.len() - first;
    let count: usize = if rest < limit {
        rest
    } else {
        limit
    };
    let mut done: usize = 0;
    while done < count
        invariant
            done <= count,
            first + count <= lengths@.len(),
            lengths@.len() == lengths.len(),
            count == window(lengths@.len() as int, first as int, limit as int),
            wire_ranges(stored as int, capacity as int, lengths@, first as int, done as int, mode) == Ok::<
                Seq<(usize, usize)>,
                RawError,
            >(ranges@),
        decreases count - done,
    {
        let outcome = wire_packet(stored, capacity, first + done, lengths[first + done], mode);
        match outcome {
            Err(error) => {
                proof {
                    lemma_wire_ranges_fail(
                        stored as int,
                        capacity as int,
                        lengths@,
                        first as int,
                        done + 1,
                        count as int,
                        mode,
                    );
                }
                return Err(error);
            },
            Ok(range) => {
                ranges.push(range);
            },
        }
        done = done + 1;
    }
    Ok(ranges)
}

/// Where the bytes lie that go out for one packet.
pub fn wire_packet(stored: usize, capacity: usize, index: usize, length: usize, mode: RawSendMode) -> (result: Result<
    (usize, usize),
    RawError,
>)
    ensures
        match wire_range(stored as int, capacity as int, index as int, length as int, mode) {
            Ok((start, end)) => result == Ok::<(usize, usize), RawError>((start as usize, end as usize)) && 0
                <= start <= end <= stored,
            Err(error) => result == Err::<(usize, usize), RawError>(error),
        },
{
    assert(index * capacity >= 0) by (nonlinear_arith)
        requires index >= 0, capacity >= 0;
    let start: usize = match index.checked_mul(capacity) {
        Some(start) => start,
        None => return Err(RawError::HeaderOffsetOverflow),
    };
    let end: usize = match start.checked_add(length) {
        Some(end) => end,
        None => return Err(RawError::HeaderLengthOverflow),
    };
    if end > stored {
        return Err(RawError::PacketExceedsSendStorage);
    }
    match mode {
        RawSendMode::Packet => Ok((start, end)),
        RawSendMode::Ip => if length < encode::IPV4_HEADER_BYTES {
            Err(RawError::MissingIpv4Header)
        } else {
            Ok((start + encode::IPV4_HEADER_BYTES, end))
        },
    }
}

/// Counts the packets that a send call took: each has to be taken whole.
pub fn sent_packets(ranges: &[(usize, usize)], taken: &[usize]) -> (result: Result<usize, RawError>)
    requires
        taken@.len() <= ranges@.len(),
        forall|index: int| 0 <= index < ranges@.len() ==> (#[trigger] ranges@[index]).0 <= ranges@[index].1,
    ensures
        result == (if forall|index: int|
            0 <= index < taken@.len() ==> #[trigger] taken@[index] == ranges@[index].1 - ranges@[index].0 {
            Ok::<usize, RawError>(taken@.len() as usize)
        } else {
            Err(RawError::PartiallySent)
        }),
{
    let mut index: usize = 0;
    while index < taken.len()
        invariant
            index <= taken@.len() <= ranges@.len(),
            forall|index: int| 0 <= index < ranges@.len() ==> (#[trigger] ranges@[index]).0 <= ranges@[index].1,
            forall|position: int|
                0 <= position < index ==> #[trigger] taken@[position] == ranges@[position].1 - ranges@[position].0,
        decreases taken@.len() - index,
    {
        if taken[index] != ranges[index].1 - ranges[index].0 {
            return Err(RawError::PartiallySent);
        }
        index = index + 1;
    }
    Ok(taken.len())
}

/// Where the packets of one receive call go: one slot every 65535 bytes.
pub open spec fn receive_ranges(count: int) -> Seq<(usize, usize)> {
    Seq::new(
        count as nat,
        |index: int|
            (
                (index * receive::RAW_PACKET_BUFFER_BYTES) as usize,
                ((index + 1) * receive::RAW_PACKET_BUFFER_BYTES) as usize,
            ),
    )
}

/// Where the packets of one receive call go in a storage of `stored` bytes.
pub fn receive_slots(stored: usize, count: usize) -> (result: Result<Vec<(usize, usize)>, RawError>)
    ensures
        if count * receive::RAW_PACKET_BUFFER_BYTES <= stored {
            result matches Ok(slots) && slots@ == receive_ranges(count as int)
        } else {
            result matches Err(error) && error == RawError::ReceiveStorageTooSmall
        },
{
    let mut slots: Vec<(usize, usize)> = Vec::new();
    let mut done: usize = 0;
    let mut end: usize = 0;
    while done < count
        invariant
            done <= count,
            end == done * receive::RAW_PACKET_BUFFER_BYTES <= stored,
            slots@ == receive_ranges(done as int),
        decreases count - done,
    {
        if stored - end < receive::RAW_PACKET_BUFFER_BYTES {
            return Err(RawError::ReceiveStorageTooSmall);
        }
        let next: usize = end + receive::RAW_PACKET_BUFFER_BYTES;
        slots.push((end, next));
        end = next;
        done = done + 1;
        assert(slots@ =~= receive_ranges(done as int));
    }
    Ok(slots)
}

/// The length to record for a received packet: a packet that did not fit its slot counts
/// as empty, and is then rejected.
pub fn received_length(length: u32, truncated: bool) -> (recorded: usize)
    ensures
        recorded == if truncated {
            0
        } else {
            length as int
        },
{
    if truncated {
        0
    } else {
        length as usize
    }
}

}
