//! Limits and lengths of control frames.
use vstd::prelude::*;

verus! {

/// The most bytes that an early opening adds to its initial bytes.
pub const MAX_EARLY_OPEN_OVERHEAD: usize = 512;

/// The most bytes that one read of the control stream takes.
pub const CONTROL_READ_CHUNK: usize = 4096;

/// How many control frames are decoded in one turn.
pub const CONTROL_DECODE_BATCH: usize = 128;

/// The most bytes of undecoded control frames that are kept: a frame of stream data with
/// the negotiated payload, or an acknowledgment with the negotiated ranges, each number of
/// it with at most sixteen bytes around it.
pub open spec fn input_limit(max_stream_payload: int, max_ack_ranges: int) -> int {
    let data = max_stream_payload + 16;
    let ack = max_ack_ranges * 16 + 16;
    let largest = if data > ack {
        data
    } else {
        ack
    };
    if largest > usize::MAX {
        usize::MAX as int
    } else {
        largest
    }
}

/// The most bytes of undecoded control frames that are kept.
pub fn control_input_limit(max_stream_payload: usize, max_ack_ranges: usize) -> (limit: usize)
    ensures
        limit == input_limit(max_stream_payload as int, max_ack_ranges as int),
{
    let data: usize = max_stream_payload.saturating_add(16);
    let ranges: usize = match max_ack_ranges.checked_mul(16) {
        Some(bytes) => bytes,
        None => usize::MAX,
    };
    let ack: usize = ranges.saturating_add(16);
    if data > ack {
        data
    } else {
        ack
    }
}

/// The most bytes of an opening that carries initial bytes.
pub fn early_open_frame_limit(flow_buffer_bytes: usize) -> (limit: Option<usize>)
    ensures
        limit == (if flow_buffer_bytes + MAX_EARLY_OPEN_OVERHEAD <= usize::MAX {
            Some((flow_buffer_bytes + MAX_EARLY_OPEN_OVERHEAD) as usize)
        } else {
            None
        }),
{
    flow_buffer_bytes.checked_add(MAX_EARLY_OPEN_OVERHEAD)
}

/// How many bytes a variable-length number has that starts with this byte.
pub open spec fn number_length(first: u8) -> int {
    if first < 64 {
        1
    } else if first < 128 {
        2
    } else if first < 192 {
        4
    } else {
        8
    }
}

/// The value of a variable-length number: the two top bits of its first byte are its
/// length.
pub open spec fn number_value(bytes: Seq<u8>) -> int
    decreases bytes.len(),
{
    if bytes.len() <= 1 {
        (bytes[0] % 64) as int
    } else {
        number_value(bytes.drop_last()) * 256 + bytes.last()
    }
}

proof fn lemma_number_bound(bytes: Seq<u8>)
    requires
        1 <= bytes.len() <= 8,
    ensures
        0 <= number_value(bytes),
        bytes.len() == 1 ==> number_value(bytes) < 0x40,
        bytes.len() == 2 ==> number_value(bytes) < 0x4000,
        bytes.len() == 3 ==> number_value(bytes) < 0x40_0000,
        bytes.len() == 4 ==> number_value(bytes) < 0x4000_0000,
        bytes.len() == 5 ==> number_value(bytes) < 0x40_0000_0000,
        bytes.len() == 6 ==> number_value(bytes) < 0x4000_0000_0000,
        bytes.len() == 7 ==> number_value(bytes) < 0x40_0000_0000_0000,
        bytes.len() == 8 ==> number_value(bytes) < 0x4000_0000_0000_0000,
    decreases bytes.len(),
{
    if bytes.len() > 1 {
        lemma_number_bound(bytes.drop_last());
    }
}

/// How many bytes stand in front of a frame's content: its type and its length. The second
/// byte of the frame says how many.
pub fn control_header_length(second: u8) -> (length: usize)
    ensures
        length == 1 + number_length(second),
{
    if second < 64 {
        2
    } else if second < 128 {
        3
    } else if second < 192 {
        5
    } else {
        9
    }
}

/// The length of a frame with its header, unless it is above the limit. `header` is the
/// whole header.
pub fn control_frame_length(header: &[u8], max_frame_bytes: usize) -> (total: Option<usize>)
    requires
        2 <= header@.len() == 1 + number_length(header@[1]),
    ensures
        total == (if header@.len() + number_value(header@.skip(1)) <= max_frame_bytes {
            Some((header@.len() + number_value(header@.skip(1))) as usize)
        } else {
            None
        }),
{
    let ghost number = header@.skip(1);
    let mut length: u64 = (header[1] % 64) as u64;
    let mut at: usize = 2;
    assert(number.take(1) =~= seq![header@[1]]);
    while at < header.len()
        invariant
            2 <= at <= header@.len() <= 9,
            number == header@.skip(1),
            length == number_value(number.take(at - 1)),
        decreases header@.len() - at,
    {
        proof {
            lemma_number_bound(number.take(at - 1));
            assert(number.take(at as int).drop_last() =~= number.take(at - 1));
            assert(number.take(at as int).last() == header@[at as int]);
        }
        length = length * 256 + header[at] as u64;
        at = at + 1;
    }
    proof {
        assert(number.take(at - 1) =~= number);
        lemma_number_bound(number);
    }
    let limit: u64 = max_frame_bytes as u64;
    let front: u64 = header.len() as u64;
    if front <= limit && length <= limit - front {
        Some((front + length) as usize)
    } else {
        None
    }
}

/// How much the next read of the control stream may take, with so many undecoded bytes at
/// hand: nothing once the limit is reached, which is an error.
pub fn read_capacity(max_input: usize, held: usize, scratch: usize) -> (capacity: Option<usize>)
    ensures
        capacity == (if held >= max_input {
            None
        } else if max_input - held < scratch {
            Some((max_input - held) as usize)
        } else {
            Some(scratch)
        }),
{
    let remaining: usize = max_input.saturating_sub(held);
    if remaining == 0 {
        None
    } else if remaining < scratch {
        Some(remaining)
    } else {
        Some(scratch)
    }
}

/// How large the scratch buffer of a flow is.
pub fn scratch_length(max_input: usize) -> (length: usize)
    ensures
        length == (if max_input < 1 {
            1
        } else if max_input > CONTROL_READ_CHUNK {
            CONTROL_READ_CHUNK as int
        } else {
            max_input as int
        }),
{
    if max_input < 1 {
        1
    } else if max_input > CONTROL_READ_CHUNK {
        CONTROL_READ_CHUNK
    } else {
        max_input
    }
}

/// Undecoded bytes never exceed their limit: what a read may take always fits.
pub proof fn law_input_stays_within_its_limit(max_input: int, held: int, read: int, scratch: int)
    requires
        0 <= held < max_input,
        0 <= read,
        read <= (if max_input - held < scratch {
            max_input - held
        } else {
            scratch
        }),
    ensures
        held + read <= max_input,
{
}

}
