//! The bounded state that a flow's handle and its control task share.
use crate::config::transport::RecoveryConfig;
use crate::recovery::RecoveryError;
use crate::storage;
use bytes::Bytes;
use std::collections::VecDeque;
use vstd::prelude::*;

verus! {

/// The largest offset that a control frame carries.
pub const MAX_WIRE_OFFSET: u64 = 0x3fff_ffff_ffff_ffff;

/// How many received records make an acknowledgment due at once.
pub const LOGICAL_ACK_THRESHOLD: u32 = 16;

/// The kind of a failure.
#[derive(Clone, Copy, Debug, PartialEq, Eq, Structural)]
pub enum FailureKind {
    /// The flow was given up.
    ConnectionAborted,
    /// The peer reset the flow.
    ConnectionReset,
    /// The flow is shut down for writing.
    BrokenPipe,
    /// The flow is longer than an offset counts.
    InvalidData,
}

/// A failure of a flow.
#[derive(Debug)]
pub struct Failure {
    /// Its kind.
    pub kind: FailureKind,
    /// What it is about.
    pub message: String,
}

impl Clone for Failure {
    fn clone(&self) -> (copy: Self)
        ensures
            copy == *self,
    {
        Failure { kind: self.kind, message: self.message.clone() }
    }
}

/// Bytes that are to be sent from an offset on.
#[derive(Debug)]
pub struct Outbound {
    /// The offset of the first byte.
    pub offset: u64,
    /// The bytes.
    pub bytes: Bytes,
}

/// Who has to be woken.
#[derive(Clone, Copy, Debug, PartialEq, Eq, Structural)]
pub struct FlowWakes {
    /// The reader of the flow.
    pub reader: bool,
    /// The writer of the flow.
    pub writer: bool,
    /// The control task.
    pub task: bool,
}

/// Shared bounded state between a TCP-like handle and its private control task.
///
/// What was received is kept elsewhere; this state says what may be received, read,
/// written and sent, and who waits for what.
#[derive(Debug)]
pub struct FlowState {
    outbound: VecDeque<Outbound>,
    retained_bytes: usize,
    retained_chunks: usize,
    replay_limit: usize,
    replay_chunk_limit: usize,
    next_send_offset: u64,
    receive_final_offset: Option<u64>,
    receive_window: u64,
    max_receive_offset: u64,
    credit_dirty: bool,
    ack_pending: u32,
    reader_waits: bool,
    writer_waits: bool,
    task_waits: bool,
    flush_target: Option<u64>,
    flushed_offset: u64,
    peer_max_offset: u64,
    shutdown_target: Option<u64>,
    shutdown_done: bool,
    reset: Option<u64>,
    locally_reset: bool,
    handle_dropped: bool,
    task_stopped: bool,
    error: Option<Failure>,
    wakes: FlowWakes,
}

/// The content of a flow's state.
#[verifier::ext_equal]
pub ghost struct FlowModel {
    /// The bytes that are to be sent, with their offsets.
    pub outbound: Seq<(u64, Seq<u8>)>,
    /// How many bytes are kept until the peer has them.
    pub retained_bytes: int,
    /// In how many chunks.
    pub retained_chunks: int,
    /// The most bytes that are kept.
    pub replay_limit: int,
    /// The most chunks that are kept.
    pub replay_chunk_limit: int,
    /// The offset behind the last byte that was written.
    pub next_send_offset: u64,
    /// Where the peer's bytes end, once known.
    pub receive_final_offset: Option<u64>,
    /// How far ahead of the reader the peer may send.
    pub receive_window: u64,
    /// Up to where the peer may send.
    pub max_receive_offset: u64,
    /// Whether the peer has to be told so.
    pub credit_dirty: bool,
    /// How many records wait for an acknowledgment.
    pub ack_pending: u32,
    /// Whether the reader waits.
    pub reader_waits: bool,
    /// Whether the writer waits.
    pub writer_waits: bool,
    /// Whether the control task waits.
    pub task_waits: bool,
    /// Up to where the writer wants its bytes sent.
    pub flush_target: Option<u64>,
    /// Up to where they are.
    pub flushed_offset: u64,
    /// Up to where the peer lets this end send.
    pub peer_max_offset: u64,
    /// Where this end's bytes end, once it is shut down.
    pub shutdown_target: Option<u64>,
    /// Whether the peer was told.
    pub shutdown_done: bool,
    /// The code to reset the flow with.
    pub reset: Option<u64>,
    /// Whether this end reset the flow.
    pub locally_reset: bool,
    /// Whether the handle is gone.
    pub handle_dropped: bool,
    /// Whether the control task is gone.
    pub task_stopped: bool,
    /// Why the flow failed, if it did.
    pub error: Option<Failure>,
    /// Who has to be woken.
    pub wakes: FlowWakes,
}

/// The content of a chunk.
pub open spec fn chunk_model(chunk: Outbound) -> (u64, Seq<u8>) {
    (chunk.offset, storage::contents(chunk.bytes))
}

impl View for FlowState {
    type V = FlowModel;

    closed spec fn view(&self) -> FlowModel {
        FlowModel {
            outbound: self.outbound@.map_values(|chunk: Outbound| chunk_model(chunk)),
            retained_bytes: self.retained_bytes as int,
            retained_chunks: self.retained_chunks as int,
            replay_limit: self.replay_limit as int,
            replay_chunk_limit: self.replay_chunk_limit as int,
            next_send_offset: self.next_send_offset,
            receive_final_offset: self.receive_final_offset,
            receive_window: self.receive_window,
            max_receive_offset: self.max_receive_offset,
            credit_dirty: self.credit_dirty,
            ack_pending: self.ack_pending,
            reader_waits: self.reader_waits,
            writer_waits: self.writer_waits,
            task_waits: self.task_waits,
            flush_target: self.flush_target,
            flushed_offset: self.flushed_offset,
            peer_max_offset: self.peer_max_offset,
            shutdown_target: self.shutdown_target,
            shutdown_done: self.shutdown_done,
            reset: self.reset,
            locally_reset: self.locally_reset,
            handle_dropped: self.handle_dropped,
            task_stopped: self.task_stopped,
            error: self.error,
            wakes: self.wakes,
        }
    }
}

/// No one.
pub open spec fn nobody() -> FlowWakes {
    FlowWakes { reader: false, writer: false, task: false }
}

/// The reader is woken if it waits.
pub open spec fn wake_reader(state: FlowModel) -> FlowModel {
    if state.reader_waits {
        FlowModel { reader_waits: false, wakes: FlowWakes { reader: true, ..state.wakes }, ..state }
    } else {
        state
    }
}

/// The writer is woken if it waits.
pub open spec fn wake_writer(state: FlowModel) -> FlowModel {
    if state.writer_waits {
        FlowModel { writer_waits: false, wakes: FlowWakes { writer: true, ..state.wakes }, ..state }
    } else {
        state
    }
}

/// The control task is woken if it waits.
pub open spec fn wake_task(state: FlowModel) -> FlowModel {
    if state.task_waits {
        FlowModel { task_waits: false, wakes: FlowWakes { task: true, ..state.wakes }, ..state }
    } else {
        state
    }
}

/// How many bytes some chunks have.
pub open spec fn total(chunks: Seq<(u64, Seq<u8>)>) -> int
    decreases chunks.len(),
{
    if chunks.len() == 0 {
        0
    } else {
        total(chunks.drop_last()) + chunks.last().1.len()
    }
}

/// Whether some chunks follow each other without a gap, and end at an offset.
pub open spec fn gapless(chunks: Seq<(u64, Seq<u8>)>, end: int) -> bool {
    forall|index: int|
        0 <= index < chunks.len() ==> (#[trigger] chunks[index]).0 + chunks[index].1.len() == (if index + 1
            < chunks.len() {
            chunks[index + 1].0 as int
        } else {
            end
        })
}

impl FlowModel {
    /// What waits to be sent is kept, within the limits, and goes up to what was written
    /// without a gap.
    pub open spec fn valid(self) -> bool {
        &&& 0 <= total(self.outbound) <= self.retained_bytes <= self.replay_limit
        &&& self.outbound.len() <= self.retained_chunks
        &&& gapless(self.outbound, self.next_send_offset as int)
        &&& self.flushed_offset <= self.next_send_offset
    }
}

proof fn lemma_total_push(chunks: Seq<(u64, Seq<u8>)>, chunk: (u64, Seq<u8>))
    ensures
        total(chunks.push(chunk)) == total(chunks) + chunk.1.len(),
{
    assert(chunks.push(chunk).drop_last() =~= chunks);
}

pub(crate) proof fn lemma_total_front(chunks: Seq<(u64, Seq<u8>)>)
    ensures
        total(chunks) >= 0,
        chunks.len() > 0 ==> total(chunks) == chunks[0].1.len() + total(chunks.skip(1)),
    decreases chunks.len(),
{
    if chunks.len() == 1 {
        assert(chunks.skip(1) =~= Seq::empty());
        assert(chunks.drop_last() =~= Seq::empty());
    } else if chunks.len() > 1 {
        let front = chunks.drop_last();
        lemma_total_front(front);
        assert(chunks.skip(1).drop_last() =~= front.skip(1));
        assert(chunks.skip(1).last() == chunks.last());
        lemma_total_front(chunks.skip(1).drop_last());
    }
}

/// Why nothing can be written, if nothing can.
pub open spec fn write_failure(state: FlowModel) -> Option<(FailureKind, Seq<char>)> {
    match state.error {
        Some(failure) => Some((failure.kind, failure.message@)),
        None => if state.shutdown_target is Some {
            Some((FailureKind::BrokenPipe, "QUICP flow is shut down"@))
        } else {
            None
        },
    }
}

/// Whether so many more bytes can be kept.
pub open spec fn has_room(state: FlowModel, length: int) -> bool {
    state.retained_bytes + length <= state.replay_limit && state.retained_chunks < state.replay_chunk_limit
}

/// Whether a failure is this one.
pub open spec fn is_failure(failure: Failure, kind: FailureKind, message: Seq<char>) -> bool {
    failure.kind == kind && failure.message@ == message
}

/// What `FlowState::enqueue` does.
pub open spec fn enqueued(
    before: FlowModel,
    bytes: Seq<u8>,
    result: Result<Option<u64>, Failure>,
    after: FlowModel,
) -> bool {
    match write_failure(before) {
        Some((kind, message)) => result matches Err(failure) && is_failure(failure, kind, message) && after == before,
        None => if !has_room(before, bytes.len() as int) {
            result matches Ok(None) && after == (FlowModel { writer_waits: true, ..before })
        } else if before.next_send_offset + bytes.len() > u64::MAX {
            result matches Err(failure) && is_failure(failure, FailureKind::InvalidData, "flow offset overflow"@)
                && after == before
        } else {
            let next = (before.next_send_offset + bytes.len()) as u64;
            &&& result matches Ok(Some(offset)) && offset == next
            &&& after == wake_task(
                FlowModel {
                    outbound: before.outbound.push((before.next_send_offset, bytes)),
                    retained_bytes: before.retained_bytes + bytes.len(),
                    retained_chunks: before.retained_chunks + 1,
                    next_send_offset: next,
                    ..before
                },
            )
        },
    }
}

/// What `FlowState::can_enqueue` does.
pub open spec fn room_asked(before: FlowModel, length: int, result: Result<bool, Failure>, after: FlowModel) -> bool {
    match write_failure(before) {
        Some((kind, message)) => result matches Err(failure) && is_failure(failure, kind, message) && after == before,
        None => if has_room(before, length) {
            result matches Ok(ready) && ready && after == before
        } else {
            result matches Ok(ready) && !ready && after == (FlowModel { writer_waits: true, ..before })
        },
    }
}

/// The state after a record that ends at `end` was stored.
pub open spec fn record_stored(state: FlowModel, end: u64, fin: bool) -> FlowModel {
    let pending = if state.ack_pending == u32::MAX {
        u32::MAX
    } else {
        (state.ack_pending + 1) as u32
    };
    let stored = wake_reader(
        FlowModel {
            receive_final_offset: if fin {
                Some(end)
            } else {
                state.receive_final_offset
            },
            ack_pending: pending,
            ..state
        },
    );
    if pending == 1 || pending >= LOGICAL_ACK_THRESHOLD {
        wake_task(stored)
    } else {
        stored
    }
}

/// The state after the end of the peer's bytes became known.
pub open spec fn end_stored(state: FlowModel, offset: u64) -> FlowModel {
    wake_task(
        wake_reader(
            FlowModel {
                receive_final_offset: Some(offset),
                ack_pending: if state.ack_pending == u32::MAX {
                    u32::MAX
                } else {
                    (state.ack_pending + 1) as u32
                },
                ..state
            },
        ),
    )
}

/// Up to where the peer may send once everything before an offset was read.
pub open spec fn credit_at(state: FlowModel, next_offset: u64) -> u64 {
    let maximum = if next_offset + state.receive_window > u64::MAX {
        u64::MAX as int
    } else {
        next_offset + state.receive_window
    };
    if maximum < MAX_WIRE_OFFSET {
        maximum as u64
    } else {
        MAX_WIRE_OFFSET
    }
}

/// The state after so many bytes were read, and what the reader gets: nothing if there was
/// nothing and more may come, and then it waits.
pub open spec fn bytes_read(state: FlowModel, read: int, next_offset: u64, finished: bool) -> (
    FlowModel,
    Option<usize>,
) {
    let credit = credit_at(state, next_offset);
    let raised = if read != 0 && credit > state.max_receive_offset {
        wake_task(FlowModel { max_receive_offset: credit, credit_dirty: true, ..state })
    } else {
        state
    };
    if read != 0 || finished {
        (raised, Some(read as usize))
    } else {
        (FlowModel { reader_waits: true, ..raised }, None)
    }
}

/// The state after the writer asked for its bytes to be sent, and whether they are.
pub open spec fn flush_requested(state: FlowModel) -> (FlowModel, bool) {
    let target = state.next_send_offset;
    let wanted = match state.flush_target {
        Some(earlier) if earlier > target => earlier,
        _ => target,
    };
    let asked = FlowModel { flush_target: Some(wanted), ..state };
    if state.flushed_offset >= target {
        (asked, true)
    } else {
        (wake_task(FlowModel { writer_waits: true, ..asked }), false)
    }
}

/// The state after the writer shut the flow down, and whether the peer was told.
pub open spec fn shutdown_requested(state: FlowModel) -> (FlowModel, bool) {
    let asked = FlowModel {
        shutdown_target: match state.shutdown_target {
            Some(target) => Some(target),
            None => Some(state.next_send_offset),
        },
        ..state
    };
    if state.shutdown_done {
        (asked, true)
    } else {
        (wake_task(FlowModel { writer_waits: true, ..asked }), false)
    }
}

/// Whether a flow can be reset from here: it was already, or is alive.
pub open spec fn resettable(state: FlowModel) -> bool {
    state.locally_reset || !state.task_stopped && state.error is None
}

/// The state after a flow that is alive was reset: what waits to be sent is dropped, and
/// everybody learns of it.
pub open spec fn reset_done(before: FlowModel, code: u64, after: FlowModel) -> bool {
    exists|failure: Failure|
        is_failure(failure, FailureKind::ConnectionAborted, "QUICP flow was reset"@) && after == #[trigger] after_reset(
            before,
            code,
            failure,
        )
}

/// The state after a flow was reset, with the failure that everybody learns.
pub open spec fn after_reset(before: FlowModel, code: u64, failure: Failure) -> FlowModel {
    wake_task(
        wake_writer(
            wake_reader(
                FlowModel {
                    locally_reset: true,
                    reset: Some(code),
                    outbound: Seq::empty(),
                    retained_bytes: before.retained_bytes - total(before.outbound),
                    retained_chunks: before.retained_chunks - before.outbound.len(),
                    error: Some(failure),
                    ..before
                },
            ),
        ),
    )
}

impl FlowState {
    /// The content is valid.
    pub closed spec fn wf(&self) -> bool {
        self@.valid()
    }

    /// What well-formed means for the content.
    pub proof fn lemma_wf(&self)
        requires
            self.wf(),
        ensures
            self@.valid(),
    {
    }

    /// The state of a new flow. `replay_chunk_limit` is the most chunks that the replay
    /// buffer keeps; `initial_send_offset` counts the bytes that the opening carried.
    pub fn new(recovery: RecoveryConfig, replay_chunk_limit: usize, initial_send_offset: u64) -> (state: Self)
        ensures
            state.wf(),
            state@ == (FlowModel {
                outbound: Seq::empty(),
                retained_bytes: 0,
                retained_chunks: 0,
                replay_limit: recovery.replay_buffer_bytes as int,
                replay_chunk_limit: replay_chunk_limit as int,
                next_send_offset: initial_send_offset,
                receive_final_offset: None,
                receive_window: recovery.reassembly_buffer_bytes as u64,
                max_receive_offset: recovery.reassembly_buffer_bytes as u64,
                credit_dirty: true,
                ack_pending: 0,
                reader_waits: false,
                writer_waits: false,
                task_waits: false,
                flush_target: None,
                flushed_offset: initial_send_offset,
                peer_max_offset: 0,
                shutdown_target: None,
                shutdown_done: false,
                reset: None,
                locally_reset: false,
                handle_dropped: false,
                task_stopped: false,
                error: None,
                wakes: nobody(),
            }),
    {
        let state = FlowState {
            outbound: VecDeque::new(),
            retained_bytes: 0,
            retained_chunks: 0,
            replay_limit: recovery.replay_buffer_bytes as usize,
            replay_chunk_limit,
            next_send_offset: initial_send_offset,
            receive_final_offset: None,
            receive_window: recovery.reassembly_buffer_bytes as u64,
            max_receive_offset: recovery.reassembly_buffer_bytes as u64,
            credit_dirty: true,
            ack_pending: 0,
            reader_waits: false,
            writer_waits: false,
            task_waits: false,
            flush_target: None,
            flushed_offset: initial_send_offset,
            peer_max_offset: 0,
            shutdown_target: None,
            shutdown_done: false,
            reset: None,
            locally_reset: false,
            handle_dropped: false,
            task_stopped: false,
            error: None,
            wakes: FlowWakes { reader: false, writer: false, task: false },
        };
        assert(state@.outbound =~= Seq::empty());
        state
    }

    fn wake_reader(&mut self)
        ensures
            final(self)@ == wake_reader(old(self)@),
    {
        if self.reader_waits {
            self.reader_waits = false;
            self.wakes.reader = true;
        }
    }

    fn wake_writer(&mut self)
        ensures
            final(self)@ == wake_writer(old(self)@),
    {
        if self.writer_waits {
            self.writer_waits = false;
            self.wakes.writer = true;
        }
    }

    /// Wakes the control task if it waits.
    pub fn wake_task(&mut self)
        ensures
            final(self)@ == wake_task(old(self)@),
    {
        if self.task_waits {
            self.task_waits = false;
            self.wakes.task = true;
        }
    }

    /// Who has to be woken since this was last asked.
    pub fn take_wakes(&mut self) -> (wakes: FlowWakes)
        requires
            old(self).wf(),
        ensures
            final(self).wf(),
            wakes == old(self)@.wakes,
            final(self)@ == (FlowModel { wakes: nobody(), ..old(self)@ }),
    {
        let wakes: FlowWakes = self.wakes;
        self.wakes = FlowWakes { reader: false, writer: false, task: false };
        wakes
    }

    /// What `insert_bytes` asks first: whether the peer may send these bytes. The result is
    /// the offset behind them.
    pub fn admit_bytes(&self, offset: u64, length: usize) -> (result: Result<u64, RecoveryError>)
        ensures
            result == (if offset + length > u64::MAX {
                Err::<u64, RecoveryError>(RecoveryError::OffsetOverflow)
            } else if offset + length > self@.max_receive_offset {
                Err(RecoveryError::FlowControl)
            } else {
                Ok((offset + length) as u64)
            }),
    {
        match offset.checked_add(length as u64) {
            None => Err(RecoveryError::OffsetOverflow),
            Some(end) => if end > self.max_receive_offset {
                Err(RecoveryError::FlowControl)
            } else {
                Ok(end)
            },
        }
    }

    /// What `insert_bytes` does once the bytes up to `end` are stored: an acknowledgment is
    /// due some time, and at once where many are, and the reader may go on.
    pub fn commit_bytes(&mut self, end: u64, fin: bool)
        requires
            old(self).wf(),
        ensures
            final(self).wf(),
            final(self)@ == record_stored(old(self)@, end, fin),
    {
        if fin {
            self.receive_final_offset = Some(end);
        }
        self.ack_pending = self.ack_pending.saturating_add(1);
        self.wake_reader();
        if self.ack_pending == 1 || self.ack_pending >= LOGICAL_ACK_THRESHOLD {
            self.wake_task();
        }
    }

    /// What `set_final_offset` asks first: whether the peer's bytes may end there.
    pub fn admit_final_offset(&self, offset: u64) -> (result: Result<(), RecoveryError>)
        ensures
            result == (if offset > self@.max_receive_offset {
                Err::<(), RecoveryError>(RecoveryError::FlowControl)
            } else {
                Ok(())
            }),
    {
        if offset > self.max_receive_offset {
            Err(RecoveryError::FlowControl)
        } else {
            Ok(())
        }
    }

    /// What `set_final_offset` does once the end is stored.
    pub fn commit_final_offset(&mut self, offset: u64)
        requires
            old(self).wf(),
        ensures
            final(self).wf(),
            final(self)@ == end_stored(old(self)@, offset),
    {
        self.receive_final_offset = Some(offset);
        self.ack_pending = self.ack_pending.saturating_add(1);
        self.wake_reader();
        self.wake_task();
    }

    /// Why the flow failed, if it did.
    pub fn check(&self) -> (result: Result<(), Failure>)
        ensures
            match self@.error {
                Some(failure) => result == Err::<(), Failure>(failure),
                None => result is Ok,
            },
    {
        match &self.error {
            Some(failure) => Err(failure.clone()),
            None => Ok(()),
        }
    }

    /// What `read` does once so many bytes were taken, up to `next_offset`: the peer may send
    /// more, and a reader that got nothing waits, unless the flow is at its end.
    pub fn after_read(&mut self, read: usize, next_offset: u64, finished: bool) -> (result: Option<usize>)
        requires
            old(self).wf(),
        ensures
            final(self).wf(),
            (final(self)@, result) == bytes_read(old(self)@, read as int, next_offset, finished),
    {
        if read != 0 {
            let mut maximum: u64 = next_offset.saturating_add(self.receive_window);
            if maximum > MAX_WIRE_OFFSET {
                maximum = MAX_WIRE_OFFSET;
            }
            if maximum > self.max_receive_offset {
                self.max_receive_offset = maximum;
                self.credit_dirty = true;
                self.wake_task();
            }
        }
        if read != 0 || finished {
            Some(read)
        } else {
            self.reader_waits = true;
            None
        }
    }

    /// Whether so many bytes can be enqueued. Without room the writer waits.
    pub fn can_enqueue(&mut self, length: usize) -> (result: Result<bool, Failure>)
        requires
            old(self).wf(),
        ensures
            final(self).wf(),
            room_asked(old(self)@, length as int, result, final(self)@),
    {
        if let Some(failure) = &self.error {
            return Err(failure.clone());
        }
        if self.shutdown_target.is_some() {
            return Err(
                Failure {
                    kind: FailureKind::BrokenPipe,
                    message: String::from_str("QUICP flow is shut down"),
                },
            );
        }
        if length > self.replay_limit - self.retained_bytes || self.retained_chunks >= self.replay_chunk_limit {
            self.writer_waits = true;
            Ok(false)
        } else {
            Ok(true)
        }
    }

    /// Takes bytes of the writer. Without room the writer waits.
    pub fn enqueue(&mut self, bytes: &Bytes) -> (result: Result<Option<u64>, Failure>)
        requires
            old(self).wf(),
        ensures
            final(self).wf(),
            enqueued(old(self)@, storage::contents(*bytes), result, final(self)@),
    {
        let length: usize = storage::as_slice(bytes).len();
        match self.can_enqueue(length) {
            Err(failure) => return Err(failure),
            Ok(ready) => {
                if !ready {
                    return Ok(None);
                }
            },
        }
        let offset: u64 = self.next_send_offset;
        match offset.checked_add(length as u64) {
            None => Err(
                Failure { kind: FailureKind::InvalidData, message: String::from_str("flow offset overflow") },
            ),
            Some(next) => {
                let ghost before = self@;
                self.next_send_offset = next;
                self.retained_bytes = self.retained_bytes + length;
                self.retained_chunks = self.retained_chunks + 1;
                self.outbound.push_back(Outbound { offset, bytes: storage::share(bytes) });
                proof {
                    let chunk = (offset, storage::contents(*bytes));
                    assert(self@.outbound =~= before.outbound.push(chunk));
                    lemma_total_push(before.outbound, chunk);
                    assert forall|index: int| 0 <= index < self@.outbound.len() implies (
                    #[trigger] self@.outbound[index]).0 + self@.outbound[index].1.len() == (if index + 1
                        < self@.outbound.len() {
                        self@.outbound[index + 1].0 as int
                    } else {
                        next as int
                    }) by {
                        if index < before.outbound.len() {
                            assert(before.outbound[index] == self@.outbound[index]);
                        }
                    }
                }
                self.wake_task();
                Ok(Some(next))
            },
        }
    }

    /// Asks for everything that was written to be sent. Until it is, the writer waits.
    pub fn request_flush(&mut self) -> (result: Result<bool, Failure>)
        requires
            old(self).wf(),
        ensures
            final(self).wf(),
            match old(self)@.error {
                Some(failure) => result == Err::<bool, Failure>(failure) && final(self)@ == old(self)@,
                None => result matches Ok(done) && (final(self)@, done) == flush_requested(old(self)@),
            },
    {
        if let Some(failure) = &self.error {
            return Err(failure.clone());
        }
        let target: u64 = self.next_send_offset;
        let wanted: u64 = match self.flush_target {
            Some(earlier) => if earlier > target {
                earlier
            } else {
                target
            },
            None => target,
        };
        self.flush_target = Some(wanted);
        if self.flushed_offset >= target {
            Ok(true)
        } else {
            self.writer_waits = true;
            self.wake_task();
            Ok(false)
        }
    }

    /// Shuts the flow down for writing. Until the peer is told, the writer waits.
    pub fn request_shutdown(&mut self) -> (result: Result<bool, Failure>)
        requires
            old(self).wf(),
        ensures
            final(self).wf(),
            match old(self)@.error {
                Some(failure) => result == Err::<bool, Failure>(failure) && final(self)@ == old(self)@,
                None => result matches Ok(done) && (final(self)@, done) == shutdown_requested(old(self)@),
            },
    {
        if let Some(failure) = &self.error {
            return Err(failure.clone());
        }
        if self.shutdown_target.is_none() {
            self.shutdown_target = Some(self.next_send_offset);
        }
        if self.shutdown_done {
            Ok(true)
        } else {
            self.writer_waits = true;
            self.wake_task();
            Ok(false)
        }
    }

    /// Resets the flow, unless it is gone. The result says whether it is reset.
    pub fn request_reset(&mut self, code: u64) -> (accepted: bool)
        requires
            old(self).wf(),
        ensures
            final(self).wf(),
            accepted == resettable(old(self)@),
            if old(self)@.locally_reset || !accepted {
                final(self)@ == old(self)@
            } else {
                reset_done(old(self)@, code, final(self)@)
            },
    {
        if self.locally_reset {
            return true;
        }
        if self.task_stopped || self.error.is_some() {
            return false;
        }
        let ghost before = self@;
        let discarded: usize = self.outbound_bytes();
        let count: usize = self.outbound.len();
        self.locally_reset = true;
        self.reset = Some(code);
        self.retained_bytes = self.retained_bytes - discarded;
        self.retained_chunks = self.retained_chunks - count;
        self.outbound = VecDeque::new();
        let failure = Failure {
            kind: FailureKind::ConnectionAborted,
            message: String::from_str("QUICP flow was reset"),
        };
        let ghost held = failure;
        self.error = Some(failure);
        assert(self@.outbound =~= Seq::empty());
        self.wake_reader();
        self.wake_writer();
        self.wake_task();
        assert(self@ =~= after_reset(before, code, held));
        true
    }

    fn outbound_bytes(&self) -> (bytes: usize)
        requires
            self.wf(),
        ensures
            bytes == total(self@.outbound),
    {
        let mut bytes: usize = 0;
        let mut at: usize = 0;
        let ghost all = self@.outbound;
        assert(all.take(0) =~= Seq::empty());
        while at < self.outbound.len()
            invariant
                at <= all.len(),
                all == self@.outbound,
                all.len() == self.outbound@.len(),
                bytes == total(all.take(at as int)),
                total(all) <= self@.retained_bytes <= usize::MAX,
            decreases all.len() - at,
        {
            proof {
                assert(all.take(at + 1).drop_last() =~= all.take(at as int));
                assert(all.take(at + 1).last() == all[at as int]);
                assert(all[at as int] == chunk_model(self.outbound@[at as int]));
                lemma_total_prefix(all, at + 1);
            }
            bytes = bytes + storage::as_slice(&self.outbound[at].bytes).len();
            at = at + 1;
        }
        assert(all.take(at as int) =~= all);
        bytes
    }

    /// Records that the flow failed, unless it did before.
    pub fn fail(&mut self, kind: FailureKind, message: String)
        requires
            old(self).wf(),
        ensures
            final(self).wf(),
            final(self)@ == wake_writer(
                wake_reader(
                    FlowModel {
                        error: match old(self)@.error {
                            Some(failure) => Some(failure),
                            None => Some(Failure { kind, message }),
                        },
                        ..old(self)@
                    },
                ),
            ),
    {
        if self.error.is_none() {
            self.error = Some(Failure { kind, message });
        }
        self.wake_reader();
        self.wake_writer();
    }

    /// Records that the handle is gone.
    pub fn drop_handle(&mut self)
        requires
            old(self).wf(),
        ensures
            final(self).wf(),
            final(self)@ == wake_task(FlowModel { handle_dropped: true, ..old(self)@ }),
    {
        self.handle_dropped = true;
        self.wake_task();
    }

    /// Gives up everything that is kept.
    pub fn discard_retained(&mut self)
        requires
            old(self).wf(),
        ensures
            final(self).wf(),
            final(self)@ == wake_writer(
                FlowModel { outbound: Seq::empty(), retained_bytes: 0, retained_chunks: 0, ..old(self)@ },
            ),
    {
        self.outbound = VecDeque::new();
        self.retained_bytes = 0;
        self.retained_chunks = 0;
        assert(self@.outbound =~= Seq::empty());
        self.wake_writer();
    }

    /// Records that the control task is gone.
    pub fn mark_task_stopped(&mut self)
        requires
            old(self).wf(),
        ensures
            final(self).wf(),
            final(self)@ == wake_writer(wake_reader(FlowModel { task_stopped: true, ..old(self)@ })),
    {
        self.task_stopped = true;
        self.wake_reader();
        self.wake_writer();
    }

    /// Takes the next bytes that are to be sent.
    pub fn take_outbound(&mut self) -> (chunk: Option<Outbound>)
        requires
            old(self).wf(),
        ensures
            final(self).wf(),
            if old(self)@.outbound.len() == 0 {
                chunk is None && final(self)@ == old(self)@
            } else {
                chunk matches Some(taken) && chunk_model(taken) == old(self)@.outbound[0] && final(self)@ == (
                FlowModel { outbound: old(self)@.outbound.skip(1), ..old(self)@ })
            },
    {
        let ghost before = self@;
        assert(before.outbound.len() == self.outbound@.len());
        let chunk = self.outbound.pop_front();
        proof {
            if before.outbound.len() > 0 {
                assert(self@.outbound =~= before.outbound.skip(1));
                lemma_total_front(before.outbound);
                lemma_total_front(self@.outbound);
                lemma_gapless_tail(before.outbound, before.next_send_offset as int);
            } else {
                assert(self@.outbound =~= before.outbound);
            }
        }
        chunk
    }

    /// Puts bytes back that were taken and not sent.
    pub fn put_back(&mut self, chunk: Outbound)
        requires
            old(self).wf(),
            returns_to(old(self)@, chunk_model(chunk)),
        ensures
            final(self).wf(),
            final(self)@ == (FlowModel {
                outbound: seq![chunk_model(chunk)] + old(self)@.outbound,
                ..old(self)@
            }),
    {
        let ghost before = self@;
        let ghost content = chunk_model(chunk);
        self.outbound.push_front(chunk);
        proof {
            let after = seq![content] + before.outbound;
            assert(self@.outbound =~= after);
            lemma_total_front(after);
            assert(after.skip(1) =~= before.outbound);
            assert forall|index: int| 0 <= index < after.len() implies (#[trigger] after[index]).0
                + after[index].1.len() == (if index + 1 < after.len() {
                after[index + 1].0 as int
            } else {
                before.next_send_offset as int
            }) by {
                if index > 0 {
                    assert(after[index] == before.outbound[index - 1]);
                }
            }
        }
    }

    /// Counts one more kept chunk: one was cut in two.
    pub fn count_chunk(&mut self)
        requires
            old(self).wf(),
            old(self)@.retained_chunks < old(self)@.replay_chunk_limit,
        ensures
            final(self).wf(),
            final(self)@ == (FlowModel { retained_chunks: old(self)@.retained_chunks + 1, ..old(self)@ }),
    {
        self.retained_chunks = self.retained_chunks + 1;
    }

    /// Whether no more chunks can be kept.
    pub fn chunks_full(&self) -> (full: bool)
        ensures
            full == (self@.retained_chunks >= self@.replay_chunk_limit),
    {
        self.retained_chunks >= self.replay_chunk_limit
    }

    /// Gives up bytes that the peer has. They were kept, and not among those that wait to be
    /// sent.
    pub fn release(&mut self, bytes: usize, chunks: usize)
        requires
            old(self).wf(),
            bytes + total(old(self)@.outbound) <= old(self)@.retained_bytes,
            chunks + old(self)@.outbound.len() <= old(self)@.retained_chunks,
        ensures
            final(self).wf(),
            final(self)@ == wake_writer(
                FlowModel {
                    retained_bytes: old(self)@.retained_bytes - bytes,
                    retained_chunks: old(self)@.retained_chunks - chunks,
                    ..old(self)@
                },
            ),
    {
        proof {
            lemma_total_front(self@.outbound);
        }
        self.retained_bytes = self.retained_bytes - bytes;
        self.retained_chunks = self.retained_chunks - chunks;
        self.wake_writer();
    }

    /// Takes up to where the peer lets this end send. It may not take that back.
    pub fn raise_peer_maximum(&mut self, maximum: u64) -> (result: Result<(), RecoveryError>)
        requires
            old(self).wf(),
        ensures
            final(self).wf(),
            if maximum < old(self)@.peer_max_offset {
                result == Err::<(), RecoveryError>(RecoveryError::InvalidRange) && final(self)@ == old(self)@
            } else {
                result is Ok && final(self)@ == wake_task(FlowModel { peer_max_offset: maximum, ..old(self)@ })
            },
    {
        if maximum < self.peer_max_offset {
            return Err(RecoveryError::InvalidRange);
        }
        self.peer_max_offset = maximum;
        self.wake_task();
        Ok(())
    }

    /// Up to where the peer lets this end send.
    pub fn peer_maximum(&self) -> (maximum: u64)
        ensures
            maximum == self@.peer_max_offset,
    {
        self.peer_max_offset
    }

    /// The offset behind the last byte that was written.
    pub fn next_send_offset(&self) -> (offset: u64)
        ensures
            offset == self@.next_send_offset,
    {
        self.next_send_offset
    }

    /// Whether nothing waits to be sent.
    pub fn outbound_is_empty(&self) -> (empty: bool)
        ensures
            empty == (self@.outbound.len() == 0),
    {
        self.outbound.len() == 0
    }

    /// Records that the bytes up to `end` were handed over as datagrams.
    pub fn sent_directly(&mut self, end: u64)
        requires
            old(self).wf(),
            end <= old(self)@.next_send_offset,
        ensures
            final(self).wf(),
            final(self)@ == (match old(self)@.flush_target {
                Some(target) if end >= target && old(self)@.outbound.len() == 0 => wake_writer(
                    FlowModel { flushed_offset: end, ..old(self)@ },
                ),
                _ => old(self)@,
            }),
    {
        if let Some(target) = self.flush_target {
            if end >= target && self.outbound.len() == 0 {
                self.flushed_offset = end;
                self.wake_writer();
            }
        }
    }

    /// Records that the bytes up to `end` were written to the control stream.
    pub fn written_to_stream(&mut self, end: u64)
        requires
            old(self).wf(),
            end <= old(self)@.next_send_offset,
        ensures
            final(self).wf(),
            final(self)@ == wake_writer(
                FlowModel {
                    flushed_offset: if end > old(self)@.flushed_offset {
                        end
                    } else {
                        old(self)@.flushed_offset
                    },
                    ..old(self)@
                },
            ),
    {
        if end > self.flushed_offset {
            self.flushed_offset = end;
        }
        self.wake_writer();
    }

    /// How many records wait for an acknowledgment.
    pub fn ack_pending(&self) -> (pending: u32)
        ensures
            pending == self@.ack_pending,
    {
        self.ack_pending
    }

    /// Takes what the peer has to be told: whether an acknowledgment goes out now, and up to
    /// where the peer may send if that changed.
    pub fn take_feedback(&mut self, ack_due: bool) -> (feedback: (bool, Option<u64>))
        requires
            old(self).wf(),
        ensures
            final(self).wf(),
            feedback.0 == (ack_due && old(self)@.ack_pending != 0),
            feedback.1 == (if old(self)@.credit_dirty {
                Some(old(self)@.max_receive_offset)
            } else {
                None
            }),
            final(self)@ == (FlowModel {
                ack_pending: if feedback.0 {
                    0
                } else {
                    old(self)@.ack_pending
                },
                credit_dirty: false,
                ..old(self)@
            }),
    {
        let ack: bool = ack_due && self.ack_pending != 0;
        if ack {
            self.ack_pending = 0;
        }
        let credit: Option<u64> = if self.credit_dirty {
            Some(self.max_receive_offset)
        } else {
            None
        };
        self.credit_dirty = false;
        (ack, credit)
    }

    /// Where this end's bytes end, once it is shut down.
    pub fn shutdown_target(&self) -> (target: Option<u64>)
        ensures
            target == self@.shutdown_target,
    {
        self.shutdown_target
    }

    /// Records that the peer was told of the end.
    pub fn mark_shutdown_done(&mut self)
        requires
            old(self).wf(),
        ensures
            final(self).wf(),
            final(self)@ == (if old(self)@.shutdown_done {
                old(self)@
            } else {
                wake_writer(FlowModel { shutdown_done: true, ..old(self)@ })
            }),
    {
        if !self.shutdown_done {
            self.shutdown_done = true;
            self.wake_writer();
        }
    }

    /// Whether the peer has the last acknowledgment: everything up to the end arrived
    /// (`contiguous`), the acknowledgment of it was written, and none is due.
    pub fn final_ack_written(&self, contiguous: u64, acked_receive_offset: u64) -> (written: bool)
        ensures
            written == acknowledged_to_the_end(self@, contiguous, acked_receive_offset),
    {
        match self.receive_final_offset {
            Some(end) => contiguous == end && acked_receive_offset >= end && self.ack_pending == 0,
            None => false,
        }
    }

    /// How many bytes and chunks are kept for the peer's acknowledgment, or wait to be sent.
    pub fn retained(&self) -> (retained: (usize, usize))
        ensures
            retained.0 == self@.retained_bytes,
            retained.1 == self@.retained_chunks,
    {
        (self.retained_bytes, self.retained_chunks)
    }

    /// Begins a turn of the control task, which waits from then on. The result is the code
    /// to reset the flow with, if it was reset, and whether the handle is gone.
    pub fn begin_turn(&mut self) -> (turn: (Option<u64>, bool))
        requires
            old(self).wf(),
        ensures
            final(self).wf(),
            turn == (old(self)@.reset, old(self)@.handle_dropped),
            final(self)@ == (FlowModel { task_waits: true, reset: None, ..old(self)@ }),
    {
        self.task_waits = true;
        let reset: Option<u64> = self.reset;
        self.reset = None;
        (reset, self.handle_dropped)
    }
}

/// Whether everything up to the end arrived, the acknowledgment of it was written, and none
/// is due.
pub open spec fn acknowledged_to_the_end(state: FlowModel, contiguous: u64, acked: u64) -> bool {
    state.receive_final_offset matches Some(end) && contiguous == end && acked >= end && state.ack_pending == 0
}

/// Whether a chunk can go back to the front: it ends where what waits begins, and is kept.
pub open spec fn returns_to(state: FlowModel, chunk: (u64, Seq<u8>)) -> bool {
    &&& chunk.0 + chunk.1.len() == (if state.outbound.len() > 0 {
        state.outbound[0].0 as int
    } else {
        state.next_send_offset as int
    })
    &&& total(state.outbound) + chunk.1.len() <= state.retained_bytes
    &&& state.outbound.len() < state.retained_chunks
}

proof fn lemma_gapless_tail(chunks: Seq<(u64, Seq<u8>)>, end: int)
    requires
        gapless(chunks, end),
        chunks.len() > 0,
    ensures
        gapless(chunks.skip(1), end),
{
    let tail = chunks.skip(1);
    assert forall|index: int| 0 <= index < tail.len() implies (#[trigger] tail[index]).0 + tail[index].1.len() == (
    if index + 1 < tail.len() {
        tail[index + 1].0 as int
    } else {
        end
    }) by {
        assert(tail[index] == chunks[index + 1]);
    }
}

proof fn lemma_total_prefix(chunks: Seq<(u64, Seq<u8>)>, count: int)
    requires
        0 <= count <= chunks.len(),
    ensures
        0 <= total(chunks.take(count)) <= total(chunks),
    decreases chunks.len() - count,
{
    lemma_total_front(chunks.take(count));
    if count == chunks.len() {
        assert(chunks.take(count) =~= chunks);
    } else {
        lemma_total_prefix(chunks, count + 1);
        assert(chunks.take(count + 1).drop_last() =~= chunks.take(count));
    }
}

}
