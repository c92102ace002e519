//! Writing: small writes are gathered up to the bounded buffer of a flow, or sent at once.
use crate::flow::state;
use crate::flow::state::{Failure, FlowModel, FlowState};
use crate::storage;
use bytes::BytesMut;
use vstd::prelude::*;

verus! {

/// What came of handing bytes on.
#[derive(Debug)]
pub enum Handover {
    /// They were handed on.
    Done,
    /// There is no room; the writer waits.
    Pending,
    /// The flow failed.
    Failed(Failure),
}

/// What came of a write.
#[derive(Debug)]
pub enum WriteOutcome {
    /// So many bytes were accepted.
    Accepted(usize),
    /// There is no room; the writer waits.
    Pending,
    /// The flow failed.
    Failed(Failure),
}

/// Whether a handover can have come to this, with these bytes in the buffer before and
/// after it: an empty buffer is done at once, and what cannot be handed on stays.
pub open spec fn handed_over(
    before: FlowModel,
    buffer: Seq<u8>,
    outcome: Handover,
    after: FlowModel,
    rest: Seq<u8>,
) -> bool {
    if buffer.len() == 0 {
        outcome is Done && after == before && rest == buffer
    } else {
        match outcome {
            Handover::Done => exists|offset: u64| #[trigger]
                state::enqueued(before, buffer, Ok(Some(offset)), after) && rest.len() == 0,
            Handover::Pending => state::enqueued(before, buffer, Ok(None), after) && rest == buffer,
            Handover::Failed(failure) => state::enqueued(before, buffer, Err(failure), after) && rest == buffer,
        }
    }
}

/// Hands the buffered bytes on to the control task. What cannot be handed on stays in the
/// buffer.
pub fn poll_send_buffer(send_buffer: &mut BytesMut, flow: &mut FlowState) -> (outcome: Handover)
    requires
        old(flow).wf(),
    ensures
        final(flow).wf(),
        handed_over(
            old(flow)@,
            storage::mut_contents(*old(send_buffer)),
            outcome,
            final(flow)@,
            storage::mut_contents(*final(send_buffer)),
        ),
{
    if storage::buffer_len(send_buffer) == 0 {
        return Handover::Done;
    }
    let mut taken = storage::new_buffer();
    std::mem::swap(&mut taken, send_buffer);
    let chunk = storage::freeze(taken);
    match flow.enqueue(&chunk) {
        Ok(Some(offset)) => {
            assert(state::enqueued(
                old(flow)@,
                storage::mut_contents(*old(send_buffer)),
                Ok(Some(offset)),
                flow@,
            ));
            Handover::Done
        },
        Ok(None) => {
            *send_buffer = thaw(chunk);
            Handover::Pending
        },
        Err(failure) => {
            *send_buffer = thaw(chunk);
            Handover::Failed(failure)
        },
    }
}

/// Makes a buffer of a chunk again, without a copy where nobody else has the chunk.
fn thaw(chunk: bytes::Bytes) -> (buffer: BytesMut)
    ensures
        storage::mut_contents(buffer) == storage::contents(chunk),
{
    match storage::try_into_mut(chunk) {
        Ok(buffer) => buffer,
        Err(shared) => storage::buffer_from_slice(storage::as_slice(&shared)),
    }
}

/// The state and the buffer of a flow, as a write goes on.
pub ghost struct WriteModel {
    /// The state.
    pub state: FlowModel,
    /// The bytes in the buffer.
    pub buffer: Seq<u8>,
}

/// Whether a write has to hand on what is in the buffer before it takes more.
pub open spec fn drains_first(buffer: Seq<u8>, nodelay: bool, limit: int) -> bool {
    nodelay && buffer.len() > 0 || buffer.len() == limit
}

/// How many bytes of a write fit in the buffer.
pub open spec fn fitting(buffer: Seq<u8>, limit: int, length: int) -> int {
    if limit - buffer.len() < length {
        limit - buffer.len()
    } else {
        length
    }
}

/// What a write comes to once the buffer has room: bytes that would fill the buffer are
/// taken only where the whole buffer could be handed on, and a full buffer, or any buffer
/// without delay, is handed on. Bytes that were taken stay taken when that is not possible
/// yet.
pub open spec fn filled(
    start: WriteModel,
    nodelay: bool,
    limit: int,
    given: Seq<u8>,
    outcome: WriteOutcome,
    end: WriteModel,
) -> bool {
    let length = fitting(start.buffer, limit, given.len() as int);
    let buffered = start.buffer + given.take(length);
    if !nodelay && buffered.len() == limit {
        exists|asked: FlowModel, room: Result<bool, Failure>|
            {
                &&& #[trigger] state::room_asked(start.state, limit, room, asked)
                &&& match room {
                    Err(failure) => outcome == WriteOutcome::Failed(failure) && end == (WriteModel {
                        state: asked,
                        buffer: start.buffer,
                    }),
                    Ok(ready) => if ready {
                        handed_on(WriteModel { state: asked, buffer: buffered }, length, outcome, end)
                    } else {
                        outcome is Pending && end == (WriteModel { state: asked, buffer: start.buffer })
                    },
                }
            }
    } else if nodelay || buffered.len() == limit {
        handed_on(WriteModel { state: start.state, buffer: buffered }, length, outcome, end)
    } else {
        outcome == WriteOutcome::Accepted(length as usize) && end == (WriteModel {
            state: start.state,
            buffer: buffered,
        })
    }
}

/// What a write comes to once its bytes are in the buffer and the buffer is handed on.
pub open spec fn handed_on(start: WriteModel, length: int, outcome: WriteOutcome, end: WriteModel) -> bool {
    exists|handover: Handover|
        {
            &&& #[trigger] handed_over(start.state, start.buffer, handover, end.state, end.buffer)
            &&& match handover {
                Handover::Failed(failure) => outcome == WriteOutcome::Failed(failure),
                _ => outcome == WriteOutcome::Accepted(length as usize),
            }
        }
}

/// What a write does.
pub open spec fn written(
    start: WriteModel,
    nodelay: bool,
    limit: int,
    given: Seq<u8>,
    outcome: WriteOutcome,
    end: WriteModel,
) -> bool {
    if given.len() == 0 {
        outcome == WriteOutcome::Accepted(0) && end == start
    } else if drains_first(start.buffer, nodelay, limit) {
        exists|handover: Handover, middle: WriteModel|
            {
                &&& #[trigger] handed_over(start.state, start.buffer, handover, middle.state, middle.buffer)
                &&& match handover {
                    Handover::Done => filled(middle, nodelay, limit, given, outcome, end),
                    Handover::Pending => outcome is Pending && end == middle,
                    Handover::Failed(failure) => outcome == WriteOutcome::Failed(failure) && end == middle,
                }
            }
    } else {
        filled(start, nodelay, limit, given, outcome, end)
    }
}

/// Writes bytes to a flow.
///
/// At most the configured flow-buffer size is accepted per call. Without delay the copied
/// chunk is immediately handed on; otherwise it is held until the bounded buffer fills or
/// the caller flushes it.
pub fn poll_buffered_write(
    send_buffer: &mut BytesMut,
    nodelay: bool,
    flow_buffer_bytes: usize,
    flow: &mut FlowState,
    given: &[u8],
) -> (outcome: WriteOutcome)
    requires
        old(flow).wf(),
        0 < flow_buffer_bytes <= isize::MAX,
        storage::mut_contents(*old(send_buffer)).len() <= flow_buffer_bytes,
    ensures
        final(flow).wf(),
        storage::mut_contents(*final(send_buffer)).len() <= flow_buffer_bytes,
        written(
            WriteModel { state: old(flow)@, buffer: storage::mut_contents(*old(send_buffer)) },
            nodelay,
            flow_buffer_bytes as int,
            given@,
            outcome,
            WriteModel { state: final(flow)@, buffer: storage::mut_contents(*final(send_buffer)) },
        ),
{
    if given.len() == 0 {
        return WriteOutcome::Accepted(0);
    }
    let held: usize = storage::buffer_len(send_buffer);
    if (nodelay && held != 0) || held == flow_buffer_bytes {
        let handover = poll_send_buffer(send_buffer, flow);
        let ghost middle = WriteModel { state: flow@, buffer: storage::mut_contents(*send_buffer) };
        assert(handed_over(
            old(flow)@,
            storage::mut_contents(*old(send_buffer)),
            handover,
            middle.state,
            middle.buffer,
        ));
        match handover {
            Handover::Done => fill(send_buffer, nodelay, flow_buffer_bytes, flow, given),
            Handover::Failed(failure) => WriteOutcome::Failed(failure),
            Handover::Pending => WriteOutcome::Pending,
        }
    } else {
        fill(send_buffer, nodelay, flow_buffer_bytes, flow, given)
    }
}

fn fill(
    send_buffer: &mut BytesMut,
    nodelay: bool,
    flow_buffer_bytes: usize,
    flow: &mut FlowState,
    given: &[u8],
) -> (outcome: WriteOutcome)
    requires
        old(flow).wf(),
        flow_buffer_bytes <= isize::MAX,
        storage::mut_contents(*old(send_buffer)).len() <= flow_buffer_bytes,
    ensures
        final(flow).wf(),
        storage::mut_contents(*final(send_buffer)).len() <= flow_buffer_bytes,
        filled(
            WriteModel { state: old(flow)@, buffer: storage::mut_contents(*old(send_buffer)) },
            nodelay,
            flow_buffer_bytes as int,
            given@,
            outcome,
            WriteModel { state: final(flow)@, buffer: storage::mut_contents(*final(send_buffer)) },
        ),
{
    let held: usize = storage::buffer_len(send_buffer);
    let available: usize = flow_buffer_bytes - held;
    let length: usize = if available < given.len() {
        available
    } else {
        given.len()
    };
    let full: bool = held + length == flow_buffer_bytes;
    let ghost start = WriteModel { state: flow@, buffer: storage::mut_contents(*send_buffer) };
    let part = vstd::slice::slice_subrange(given, 0, length);
    assert(part@ =~= given@.take(length as int));
    let ghost buffered = start.buffer + given@.take(length as int);
    assert(buffered.len() == held + length);
    if !nodelay && full {
        let room = flow.can_enqueue(flow_buffer_bytes);
        let ghost asked = flow@;
        assert(state::room_asked(start.state, flow_buffer_bytes as int, room, asked));
        match room {
            Err(failure) => return WriteOutcome::Failed(failure),
            Ok(ready) => {
                if !ready {
                    return WriteOutcome::Pending;
                }
            },
        }
        storage::extend_from_slice(send_buffer, part);
        let outcome = hand_on(send_buffer, flow, length);
        assert(handed_on(
            WriteModel { state: asked, buffer: buffered },
            length as int,
            outcome,
            WriteModel { state: flow@, buffer: storage::mut_contents(*send_buffer) },
        ));
        outcome
    } else {
        storage::extend_from_slice(send_buffer, part);
        if nodelay || full {
            hand_on(send_buffer, flow, length)
        } else {
            WriteOutcome::Accepted(length)
        }
    }
}

fn hand_on(send_buffer: &mut BytesMut, flow: &mut FlowState, length: usize) -> (outcome: WriteOutcome)
    requires
        old(flow).wf(),
    ensures
        final(flow).wf(),
        storage::mut_contents(*final(send_buffer)).len() <= storage::mut_contents(*old(send_buffer)).len(),
        handed_on(
            WriteModel { state: old(flow)@, buffer: storage::mut_contents(*old(send_buffer)) },
            length as int,
            outcome,
            WriteModel { state: final(flow)@, buffer: storage::mut_contents(*final(send_buffer)) },
        ),
{
    let handover = poll_send_buffer(send_buffer, flow);
    let ghost came = handover;
    let outcome = match handover {
        Handover::Failed(failure) => WriteOutcome::Failed(failure),
        _ => WriteOutcome::Accepted(length),
    };
    assert(came matches Handover::Failed(failure) ==> outcome == WriteOutcome::Failed(failure));
    proof {
        let start = WriteModel { state: old(flow)@, buffer: storage::mut_contents(*old(send_buffer)) };
        let end = WriteModel { state: flow@, buffer: storage::mut_contents(*send_buffer) };
        assert(handed_over(start.state, start.buffer, came, end.state, end.buffer));
        assert(handed_on(start, length as int, outcome, end));
    }
    outcome
}

}
