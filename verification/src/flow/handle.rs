//! The handle of an established flow: a byte stream for reading and writing.
use crate::flow::admission::FlowError;
use crate::flow::state;
use crate::flow::state::{Failure, FlowModel, FlowState};
use crate::flow::write::{poll_buffered_write, poll_send_buffer, Handover, WriteModel, WriteOutcome};
use crate::storage;
use bytes::BytesMut;
use vstd::prelude::*;

verus! {

/// One established bidirectional flow.
#[derive(Debug)]
pub struct QuicpFlow {
    send_buffer: BytesMut,
    nodelay: bool,
    flow_buffer_bytes: usize,
    state: FlowState,
}

/// The content of a flow handle.
pub ghost struct HandleModel {
    /// The state that it shares with its control task.
    pub state: FlowModel,
    /// The bytes that were written and not handed on yet.
    pub buffer: Seq<u8>,
    /// Whether writes are handed on at once.
    pub nodelay: bool,
    /// The most bytes in the buffer.
    pub limit: int,
}

impl HandleModel {
    /// What a write sees of the handle.
    pub open spec fn writing(self) -> WriteModel {
        WriteModel { state: self.state, buffer: self.buffer }
    }
}

impl View for QuicpFlow {
    type V = HandleModel;

    closed spec fn view(&self) -> HandleModel {
        HandleModel {
            state: self.state@,
            buffer: storage::mut_contents(self.send_buffer),
            nodelay: self.nodelay,
            limit: self.flow_buffer_bytes as int,
        }
    }
}

/// What a call that has nothing to return came to.
#[derive(Debug)]
pub enum Completion {
    /// It is done.
    Done,
    /// The caller waits.
    Pending,
    /// The flow failed.
    Failed(Failure),
}

/// What a read is to do.
#[derive(Debug)]
pub enum ReadStep {
    /// It is done: the buffer has no room, so nothing is read.
    Done,
    /// The flow failed.
    Failed(Failure),
    /// Bytes are to be taken out of what arrived in order.
    Take,
}

/// What flushing came to: the buffer is handed on first, and what was written has then to
/// reach the transport.
pub open spec fn flushed(before: HandleModel, outcome: Completion, after: HandleModel) -> bool {
    exists|handover: Handover, middle: WriteModel|
        {
            &&& #[trigger] crate::flow::write::handed_over(
                before.state,
                before.buffer,
                handover,
                middle.state,
                middle.buffer,
            )
            &&& match handover {
                Handover::Pending => outcome is Pending && after.writing() == middle,
                Handover::Failed(failure) => outcome == Completion::Failed(failure) && after.writing() == middle,
                Handover::Done => match middle.state.error {
                    Some(failure) => outcome == Completion::Failed(failure) && after.writing() == middle,
                    None => {
                        let (state, done) = state::flush_requested(middle.state);
                        &&& after.writing() == (WriteModel { state, buffer: middle.buffer })
                        &&& outcome == (if done {
                            Completion::Done
                        } else {
                            Completion::Pending
                        })
                    },
                },
            }
        }
}

/// What half-closing came to: the buffer is handed on first, and the control task has then to
/// end the stream.
pub open spec fn shut_down(before: HandleModel, outcome: Completion, after: HandleModel) -> bool {
    exists|handover: Handover, middle: WriteModel|
        {
            &&& #[trigger] crate::flow::write::handed_over(
                before.state,
                before.buffer,
                handover,
                middle.state,
                middle.buffer,
            )
            &&& match handover {
                Handover::Pending => outcome is Pending && after.writing() == middle,
                Handover::Failed(failure) => outcome == Completion::Failed(failure) && after.writing() == middle,
                Handover::Done => match middle.state.error {
                    Some(failure) => outcome == Completion::Failed(failure) && after.writing() == middle,
                    None => {
                        let (state, done) = state::shutdown_requested(middle.state);
                        &&& after.writing() == (WriteModel { state, buffer: middle.buffer })
                        &&& outcome == (if done {
                            Completion::Done
                        } else {
                            Completion::Pending
                        })
                    },
                },
            }
        }
}

impl QuicpFlow {
    /// The state is well formed, and the buffer is within its bound.
    pub closed spec fn wf(&self) -> bool {
        &&& self.state.wf()
        &&& 0 < self.flow_buffer_bytes <= isize::MAX
        &&& storage::mut_contents(self.send_buffer).len() <= self.flow_buffer_bytes
    }

    /// What well-formed means for the content.
    pub proof fn lemma_wf(&self)
        requires
            self.wf(),
        ensures
            self@.state.valid(),
            0 < self@.limit <= isize::MAX,
            self@.buffer.len() <= self@.limit,
    {
        self.state.lemma_wf();
    }

    /// A handle on a flow. Nothing is buffered yet.
    pub fn new(flow_buffer_bytes: usize, default_nodelay: bool, state: FlowState) -> (flow: Self)
        requires
            state.wf(),
            0 < flow_buffer_bytes <= isize::MAX,
        ensures
            flow.wf(),
            flow@ == (HandleModel {
                state: state@,
                buffer: Seq::empty(),
                nodelay: default_nodelay,
                limit: flow_buffer_bytes as int,
            }),
    {
        QuicpFlow { send_buffer: storage::new_buffer(), nodelay: default_nodelay, flow_buffer_bytes, state }
    }

    /// The state that the handle shares with the control task.
    pub fn state(&self) -> (state: &FlowState)
        requires
            self.wf(),
        ensures
            state.wf(),
            state@ == self@.state,
    {
        &self.state
    }

    /// The state that the handle shares with the control task, for that task to change.
    pub fn state_mut(&mut self) -> (state: &mut FlowState)
        requires
            old(self).wf(),
        ensures
            state.wf(),
            state@ == old(self)@.state,
            final(self)@ == (HandleModel { state: final(state)@, ..old(self)@ }),
            final(state).wf() ==> final(self).wf(),
    {
        &mut self.state
    }

    /// Resets this logical flow with an application error code. A flow whose task stopped
    /// cannot be reset any more.
    pub fn reset(&mut self, code: u64) -> (result: Result<(), FlowError>)
        requires
            old(self).wf(),
        ensures
            final(self).wf(),
            result == (if state::resettable(old(self)@.state) {
                Ok::<(), FlowError>(())
            } else {
                Err(FlowError::Reset)
            }),
            if old(self)@.state.locally_reset || result is Err {
                final(self)@ == old(self)@
            } else {
                &&& state::reset_done(old(self)@.state, code, final(self)@.state)
                &&& final(self)@ == (HandleModel { state: final(self)@.state, ..old(self)@ })
            },
    {
        if self.state.request_reset(code) {
            Ok(())
        } else {
            Err(FlowError::Reset)
        }
    }

    /// Returns whether writes are sent without waiting for the flow buffer to fill.
    #[must_use]
    pub fn nodelay(&self) -> (nodelay: bool)
        ensures
            nodelay == self@.nodelay,
    {
        self.nodelay
    }

    /// Enables or disables TCP_NODELAY-like flow batching.
    ///
    /// The default is enabled so an idle small write is not held by QUICP's application
    /// buffer. Disabling it allows writes to accumulate up to the bounded flow buffer;
    /// callers should flush at message boundaries.
    pub fn set_nodelay(&mut self, nodelay: bool)
        requires
            old(self).wf(),
        ensures
            final(self).wf(),
            final(self)@ == (HandleModel { nodelay, ..old(self)@ }),
    {
        self.nodelay = nodelay;
    }

    /// Starts a read into a buffer of `room` bytes.
    pub fn poll_read(&self, room: usize) -> (step: ReadStep)
        ensures
            step == (if room == 0 {
                ReadStep::Done
            } else {
                match self@.state.error {
                    Some(failure) => ReadStep::Failed(failure),
                    None => ReadStep::Take,
                }
            }),
    {
        if room == 0 {
            return ReadStep::Done;
        }
        match self.state.check() {
            Ok(()) => ReadStep::Take,
            Err(failure) => ReadStep::Failed(failure),
        }
    }

    /// Ends a read that took `read` bytes. What arrived in order starts at `next_offset` now,
    /// and `finished` says whether the peer's last byte was taken. Without a byte, and before
    /// the end, the reader waits.
    pub fn finish_read(&mut self, read: usize, next_offset: u64, finished: bool) -> (result: Option<usize>)
        requires
            old(self).wf(),
        ensures
            final(self).wf(),
            ({
                let (after, told) = state::bytes_read(old(self)@.state, read as int, next_offset, finished);
                result == told && final(self)@ == (HandleModel { state: after, ..old(self)@ })
            }),
    {
        self.state.after_read(read, next_offset, finished)
    }

    /// Writes flow bytes with TCP-like no-delay semantics by default.
    ///
    /// At most the configured flow-buffer size is accepted per call. Without delay the copied
    /// chunk is immediately handed on; otherwise it is held until the bounded buffer fills or
    /// the caller flushes it.
    pub fn poll_write(&mut self, given: &[u8]) -> (outcome: WriteOutcome)
        requires
            old(self).wf(),
        ensures
            final(self).wf(),
            crate::flow::write::written(
                old(self)@.writing(),
                old(self)@.nodelay,
                old(self)@.limit,
                given@,
                outcome,
                final(self)@.writing(),
            ),
            final(self)@.nodelay == old(self)@.nodelay,
            final(self)@.limit == old(self)@.limit,
    {
        poll_buffered_write(&mut self.send_buffer, self.nodelay, self.flow_buffer_bytes, &mut self.state, given)
    }

    /// Flushes buffered flow bytes.
    pub fn poll_flush(&mut self) -> (outcome: Completion)
        requires
            old(self).wf(),
        ensures
            final(self).wf(),
            flushed(old(self)@, outcome, final(self)@),
            final(self)@.nodelay == old(self)@.nodelay,
            final(self)@.limit == old(self)@.limit,
    {
        let handover = poll_send_buffer(&mut self.send_buffer, &mut self.state);
        let ghost middle = self@.writing();
        assert(crate::flow::write::handed_over(
            old(self)@.state,
            old(self)@.buffer,
            handover,
            middle.state,
            middle.buffer,
        ));
        match handover {
            Handover::Pending => Completion::Pending,
            Handover::Failed(failure) => Completion::Failed(failure),
            Handover::Done => match self.state.request_flush() {
                Ok(done) => {
                    if done {
                        Completion::Done
                    } else {
                        Completion::Pending
                    }
                },
                Err(failure) => Completion::Failed(failure),
            },
        }
    }

    /// Flushes buffered bytes and half-closes the QUICP send side.
    pub fn poll_shutdown(&mut self) -> (outcome: Completion)
        requires
            old(self).wf(),
        ensures
            final(self).wf(),
            shut_down(old(self)@, outcome, final(self)@),
            final(self)@.nodelay == old(self)@.nodelay,
            final(self)@.limit == old(self)@.limit,
    {
        let handover = poll_send_buffer(&mut self.send_buffer, &mut self.state);
        let ghost middle = self@.writing();
        assert(crate::flow::write::handed_over(
            old(self)@.state,
            old(self)@.buffer,
            handover,
            middle.state,
            middle.buffer,
        ));
        match handover {
            Handover::Pending => Completion::Pending,
            Handover::Failed(failure) => Completion::Failed(failure),
            Handover::Done => match self.state.request_shutdown() {
                Ok(done) => {
                    if done {
                        Completion::Done
                    } else {
                        Completion::Pending
                    }
                },
                Err(failure) => Completion::Failed(failure),
            },
        }
    }

    /// Tells the control task that nobody uses the handle any more.
    pub fn drop_handle(&mut self)
        requires
            old(self).wf(),
        ensures
            final(self).wf(),
            final(self)@ == (HandleModel {
                state: state::wake_task(FlowModel { handle_dropped: true, ..old(self)@.state }),
                ..old(self)@
            }),
    {
        self.state.drop_handle();
    }
}

/// What comes next when a whole message is to be written.
#[derive(Clone, Copy, Debug, PartialEq, Eq, Structural)]
pub enum InitialStep {
    /// The bytes from this place on are to be written.
    Write(usize),
    /// What was written is to be flushed.
    Flush,
}

/// What comes next after `written` of `length` bytes.
pub open spec fn initial_step(length: int, written: int) -> InitialStep {
    if written < length {
        InitialStep::Write(written as usize)
    } else {
        InitialStep::Flush
    }
}

/// Starts writing a message of `length` bytes.
pub fn write_all_initial(length: usize) -> (step: InitialStep)
    ensures
        step == initial_step(length as int, 0),
{
    if length > 0 {
        InitialStep::Write(0)
    } else {
        InitialStep::Flush
    }
}

/// Goes on writing a message of `length` bytes after `count` bytes from `written` on were
/// accepted. A flow that accepts no byte at all fails.
pub fn after_initial_write(length: usize, written: usize, count: usize) -> (result: Result<InitialStep, FlowError>)
    requires
        written <= length,
        count <= length - written,
    ensures
        result == (if count == 0 {
            Err::<InitialStep, FlowError>(FlowError::Write)
        } else {
            Ok(initial_step(length as int, written + count))
        }),
{
    if count == 0 {
        return Err(FlowError::Write);
    }
    if written + count < length {
        Ok(InitialStep::Write(written + count))
    } else {
        Ok(InitialStep::Flush)
    }
}

/// A flow that was reset takes no more bytes: every later write that has to hand bytes on
/// fails as aborted.
pub proof fn law_reset_flow_takes_no_more_bytes(
    before: HandleModel,
    code: u64,
    after: HandleModel,
    given: Seq<u8>,
    outcome: WriteOutcome,
    end: WriteModel,
)
    requires
        before.state.valid(),
        after.buffer.len() <= after.limit <= usize::MAX,
        0 < after.limit,
        state::reset_done(before.state, code, after.state),
        after.nodelay || after.buffer.len() == after.limit,
        given.len() > 0,
        crate::flow::write::written(after.writing(), after.nodelay, after.limit, given, outcome, end),
    ensures
        outcome matches WriteOutcome::Failed(failure) && failure.kind == state::FailureKind::ConnectionAborted,
{
    let failed = Some((state::FailureKind::ConnectionAborted, "QUICP flow was reset"@));
    assert(state::write_failure(after.state) == failed);
    let start = after.writing();
    if crate::flow::write::drains_first(start.buffer, after.nodelay, after.limit) {
        let (handover, middle) = choose|handover: Handover, middle: WriteModel|
            {
                &&& #[trigger] crate::flow::write::handed_over(
                    start.state,
                    start.buffer,
                    handover,
                    middle.state,
                    middle.buffer,
                )
                &&& match handover {
                    Handover::Done => crate::flow::write::filled(
                        middle,
                        after.nodelay,
                        after.limit,
                        given,
                        outcome,
                        end,
                    ),
                    Handover::Pending => outcome is Pending && end == middle,
                    Handover::Failed(failure) => outcome == WriteOutcome::Failed(failure) && end == middle,
                }
            };
        assert(handover is Failed);
    } else {
        let length = crate::flow::write::fitting(start.buffer, after.limit, given.len() as int);
        let buffered = WriteModel { state: start.state, buffer: start.buffer + given.take(length) };
        let handover = choose|handover: Handover|
            {
                &&& #[trigger] crate::flow::write::handed_over(
                    buffered.state,
                    buffered.buffer,
                    handover,
                    end.state,
                    end.buffer,
                )
                &&& match handover {
                    Handover::Failed(failure) => outcome == WriteOutcome::Failed(failure),
                    _ => outcome == WriteOutcome::Accepted(length as usize),
                }
            };
        assert(handover is Failed);
    }
}

}
