//! The turns of a flow's control task: what it reads, in which order it works, and how it
//! ends.
use crate::flow::control;
use crate::flow::state;
use crate::flow::state::{Failure, FailureKind, FlowModel, FlowState};
use crate::flow::task;
use crate::flow::task::{FlowTaskError, TurnStep, FLOW_TASK_TURN_BUDGET};
use crate::recovery::RecoveryError;
use crate::storage;
use bytes::Bytes;
use vstd::prelude::*;

verus! {

// ---------------------------------------------------------------------------
// Reading
// ---------------------------------------------------------------------------

/// The bytes of the control stream that were read and not decoded yet.
#[derive(Debug)]
pub struct ControlInput {
    held: Bytes,
    max_input: usize,
}

/// The content of a control input.
pub ghost struct InputModel {
    /// The bytes.
    pub held: Seq<u8>,
    /// The most bytes that are kept.
    pub limit: int,
}

impl View for ControlInput {
    type V = InputModel;

    closed spec fn view(&self) -> InputModel {
        InputModel { held: storage::contents(self.held), limit: self.max_input as int }
    }
}

/// What became of the bytes at the front of the input.
#[derive(Clone, Copy, Debug, PartialEq, Eq, Structural)]
pub enum DecodeEvent {
    /// They are a frame of so many bytes, which was applied.
    Applied(usize),
    /// They are the beginning of a frame.
    Truncated,
    /// They are no frame.
    Malformed,
}

/// What the task does next with its input.
#[derive(Clone, Copy, Debug, PartialEq, Eq, Structural)]
pub enum ReceiveStep {
    /// Decode another frame.
    Decode,
    /// Go on with its turn: it decoded as many frames as one turn may.
    Enough,
    /// Read so many bytes of the control stream at most.
    Read(usize),
}

/// What the control stream gave.
#[derive(Clone, Copy, Debug)]
pub enum ReadEvent<'a> {
    /// These bytes, or its end where there are none.
    Read(&'a [u8]),
    /// The peer reset it with this code.
    Reset(u64),
    /// It failed.
    Failed,
    /// Nothing yet.
    Pending,
}

/// How much the next read may take, with so many bytes at hand.
pub open spec fn room(limit: int, held: int) -> int {
    let scratch = if limit < 1 {
        1
    } else if limit > control::CONTROL_READ_CHUNK {
        control::CONTROL_READ_CHUNK as int
    } else {
        limit
    };
    if limit - held < scratch {
        limit - held
    } else {
        scratch
    }
}

/// What comes of the bytes at the front of the input, after `earlier` frames of this turn.
pub open spec fn decoded(input: InputModel, earlier: int, event: DecodeEvent) -> Result<
    (InputModel, ReceiveStep),
    FlowTaskError,
> {
    match event {
        DecodeEvent::Malformed => Err(FlowTaskError::Codec),
        DecodeEvent::Applied(consumed) => Ok(
            (
                InputModel { held: input.held.skip(consumed as int), ..input },
                if earlier + 1 == control::CONTROL_DECODE_BATCH {
                    ReceiveStep::Enough
                } else {
                    ReceiveStep::Decode
                },
            ),
        ),
        DecodeEvent::Truncated => if input.held.len() >= input.limit {
            Err(FlowTaskError::ControlLimit)
        } else {
            Ok((input, ReceiveStep::Read(room(input.limit, input.held.len() as int) as usize)))
        },
    }
}

/// The error of a read, if it is one. A stream may end once the end of the flow is known.
pub open spec fn read_failure(event: ReadEvent, has_end: bool) -> Option<FlowTaskError> {
    match event {
        ReadEvent::Read(bytes) => if bytes@.len() == 0 && !has_end {
            Some(FlowTaskError::FinishedEarly)
        } else {
            None
        },
        ReadEvent::Reset(code) => Some(FlowTaskError::PeerReset(code)),
        ReadEvent::Failed => Some(FlowTaskError::Read),
        ReadEvent::Pending => None,
    }
}

/// The bytes that a read gave.
pub open spec fn read_bytes(event: ReadEvent) -> Seq<u8> {
    match event {
        ReadEvent::Read(bytes) => bytes@,
        _ => Seq::empty(),
    }
}

impl ControlInput {
    /// No more bytes are held than the limit.
    pub closed spec fn wf(&self) -> bool {
        storage::contents(self.held).len() <= self.max_input
    }

    /// What well-formed means for the content.
    pub proof fn lemma_wf(&self)
        requires
            self.wf(),
        ensures
            self@.held.len() <= self@.limit <= usize::MAX,
    {
    }

    /// An empty input for the negotiated sizes.
    pub fn new(max_stream_payload: usize, max_ack_ranges: usize) -> (input: Self)
        ensures
            input.wf(),
            input@.held == Seq::<u8>::empty(),
            input@.limit == control::input_limit(max_stream_payload as int, max_ack_ranges as int),
    {
        let empty: Vec<u8> = Vec::new();
        ControlInput {
            held: storage::from_vec(empty),
            max_input: control::control_input_limit(max_stream_payload, max_ack_ranges),
        }
    }

    /// The bytes that are to be decoded.
    pub fn held(&self) -> (bytes: &[u8])
        ensures
            bytes@ == self@.held,
    {
        storage::as_slice(&self.held)
    }

    /// Takes what became of the bytes at the front, after `earlier` frames of this turn.
    pub fn after_decode(&mut self, earlier: usize, event: DecodeEvent) -> (result: Result<ReceiveStep, FlowTaskError>)
        requires
            old(self).wf(),
            earlier < control::CONTROL_DECODE_BATCH,
            event matches DecodeEvent::Applied(consumed) ==> consumed <= old(self)@.held.len(),
        ensures
            final(self).wf(),
            match decoded(old(self)@, earlier as int, event) {
                Ok((input, step)) => result == Ok::<ReceiveStep, FlowTaskError>(step) && final(self)@ == input,
                Err(error) => result == Err::<ReceiveStep, FlowTaskError>(error) && final(self)@ == old(self)@,
            },
    {
        match event {
            DecodeEvent::Malformed => Err(FlowTaskError::Codec),
            DecodeEvent::Applied(consumed) => {
                let rest = storage::split_off(&mut self.held, consumed);
                self.held = rest;
                if earlier + 1 == control::CONTROL_DECODE_BATCH {
                    Ok(ReceiveStep::Enough)
                } else {
                    Ok(ReceiveStep::Decode)
                }
            },
            DecodeEvent::Truncated => {
                let held: usize = storage::as_slice(&self.held).len();
                let scratch: usize = control::scratch_length(self.max_input);
                match control::read_capacity(self.max_input, held, scratch) {
                    None => Err(FlowTaskError::ControlLimit),
                    Some(capacity) => Ok(ReceiveStep::Read(capacity)),
                }
            },
        }
    }

    /// Takes what the control stream gave. `has_end` says whether the end of the flow is
    /// known. Whether the task got on is told.
    pub fn after_read(&mut self, event: ReadEvent, has_end: bool) -> (result: Result<bool, FlowTaskError>)
        requires
            old(self).wf(),
            old(self)@.held.len() + read_bytes(event).len() <= old(self)@.limit,
            old(self)@.held.len() + read_bytes(event).len() <= isize::MAX,
        ensures
            final(self).wf(),
            final(self)@ == (InputModel { held: old(self)@.held + read_bytes(event), ..old(self)@ }),
            match read_failure(event, has_end) {
                Some(error) => result == Err::<bool, FlowTaskError>(error),
                None => result == Ok::<bool, FlowTaskError>(read_bytes(event).len() > 0),
            },
    {
        assert(old(self)@.held + Seq::<u8>::empty() =~= old(self)@.held);
        match event {
            ReadEvent::Read(bytes) => {
                if bytes.len() == 0 {
                    assert(bytes@ =~= Seq::<u8>::empty());
                    return if has_end {
                        Ok(false)
                    } else {
                        Err(FlowTaskError::FinishedEarly)
                    };
                }
                let held = storage::split_off(&mut self.held, 0);
                assert(old(self)@.held.skip(0) =~= old(self)@.held);
                let mut buffer = match storage::try_into_mut(held) {
                    Ok(buffer) => buffer,
                    Err(shared) => storage::buffer_from_slice(storage::as_slice(&shared)),
                };
                storage::extend_from_slice(&mut buffer, bytes);
                self.held = storage::freeze(buffer);
                Ok(true)
            },
            ReadEvent::Reset(code) => Err(FlowTaskError::PeerReset(code)),
            ReadEvent::Failed => Err(FlowTaskError::Read),
            ReadEvent::Pending => Ok(false),
        }
    }
}

/// A control frame of the peer, as far as it decides what is done with it.
#[derive(Clone, Copy, Debug, PartialEq, Eq, Structural)]
pub enum PeerFrame {
    /// What the peer received.
    Ack,
    /// Up to where this end may send.
    MaxOffset(u64),
    /// Where the peer's bytes end.
    Fin(u64),
    /// Bytes of the flow.
    StreamData {
        /// The offset of the first byte.
        offset: u64,
        /// How many there are.
        length: usize,
        /// Whether they are the last.
        fin: bool,
    },
    /// A frame of the opening.
    Opening,
}

/// What is done with a control frame.
#[derive(Clone, Copy, Debug, PartialEq, Eq, Structural)]
pub enum FrameAction {
    /// Nothing more.
    Done,
    /// Let go of what the peer has.
    Acknowledge,
    /// Store where the peer's bytes end, and commit it.
    StoreEnd(u64),
    /// Store the bytes, and commit them up to this offset.
    StoreBytes {
        /// The offset behind them.
        end: u64,
        /// Whether they are the last.
        fin: bool,
    },
}

/// What is done with a control frame, and what it does to the flow.
pub open spec fn frame_applied(flow: FlowModel, frame: PeerFrame, max_stream_payload: int) -> Result<
    (FlowModel, FrameAction),
    FlowTaskError,
> {
    match frame {
        PeerFrame::Ack => Ok((flow, FrameAction::Acknowledge)),
        PeerFrame::MaxOffset(maximum) => if maximum < flow.peer_max_offset {
            Err(FlowTaskError::Recovery(RecoveryError::InvalidRange))
        } else {
            Ok((state::wake_task(FlowModel { peer_max_offset: maximum, ..flow }), FrameAction::Done))
        },
        PeerFrame::Fin(offset) => if offset > flow.max_receive_offset {
            Err(FlowTaskError::Recovery(RecoveryError::FlowControl))
        } else {
            Ok((flow, FrameAction::StoreEnd(offset)))
        },
        PeerFrame::StreamData { offset, length, fin } => if length > max_stream_payload {
            Err(FlowTaskError::Codec)
        } else if offset + length > u64::MAX {
            Err(FlowTaskError::Recovery(RecoveryError::OffsetOverflow))
        } else if offset + length > flow.max_receive_offset {
            Err(FlowTaskError::Recovery(RecoveryError::FlowControl))
        } else {
            Ok((flow, FrameAction::StoreBytes { end: (offset + length) as u64, fin }))
        },
        PeerFrame::Opening => Err(FlowTaskError::UnexpectedControl),
    }
}

/// Applies a control frame of the peer.
pub fn apply_control(flow: &mut FlowState, frame: PeerFrame, max_stream_payload: usize) -> (result: Result<
    FrameAction,
    FlowTaskError,
>)
    requires
        old(flow).wf(),
    ensures
        final(flow).wf(),
        match frame_applied(old(flow)@, frame, max_stream_payload as int) {
            Ok((after, action)) => result == Ok::<FrameAction, FlowTaskError>(action) && final(flow)@ == after,
            Err(error) => result == Err::<FrameAction, FlowTaskError>(error) && final(flow)@ == old(flow)@,
        },
{
    match frame {
        PeerFrame::Ack => Ok(FrameAction::Acknowledge),
        PeerFrame::MaxOffset(maximum) => match flow.raise_peer_maximum(maximum) {
            Ok(()) => Ok(FrameAction::Done),
            Err(error) => Err(FlowTaskError::Recovery(error)),
        },
        PeerFrame::Fin(offset) => match flow.admit_final_offset(offset) {
            Ok(()) => Ok(FrameAction::StoreEnd(offset)),
            Err(error) => Err(FlowTaskError::Recovery(error)),
        },
        PeerFrame::StreamData { offset, length, fin } => {
            if length > max_stream_payload {
                return Err(FlowTaskError::Codec);
            }
            match flow.admit_bytes(offset, length) {
                Ok(end) => Ok(FrameAction::StoreBytes { end, fin }),
                Err(error) => Err(FlowTaskError::Recovery(error)),
            }
        },
        PeerFrame::Opening => Err(FlowTaskError::UnexpectedControl),
    }
}

// ---------------------------------------------------------------------------
// Turns
// ---------------------------------------------------------------------------

/// How the task starts when it is polled.
#[derive(Clone, Copy, Debug, PartialEq, Eq, Structural)]
pub enum TaskStart {
    /// It resets and stops both directions of the control stream with this code, and ends.
    Reset(u64),
    /// It ends.
    Stop,
    /// It takes turns.
    Run,
}

/// Starts a poll of the task.
pub fn start_poll(flow: &mut FlowState) -> (start: TaskStart)
    requires
        old(flow).wf(),
    ensures
        final(flow).wf(),
        final(flow)@ == (FlowModel { task_waits: true, reset: None, ..old(flow)@ }),
        start == (match old(flow)@.reset {
            Some(code) => TaskStart::Reset(code),
            None => if old(flow)@.handle_dropped {
                TaskStart::Stop
            } else {
                TaskStart::Run
            },
        }),
{
    let (reset, handle_dropped) = flow.begin_turn();
    match reset {
        Some(code) => TaskStart::Reset(code),
        None => if handle_dropped {
            TaskStart::Stop
        } else {
            TaskStart::Run
        },
    }
}

/// What the task works on, in this order in each turn.
#[derive(Clone, Copy, Debug, PartialEq, Eq, Structural)]
pub enum Phase {
    /// The frames of the peer.
    Receive,
    /// What the peer has to be told.
    Feedback,
    /// The bytes that were written.
    Outbound,
    /// The bytes that the peer did not acknowledge.
    Replay,
    /// The end of the flow.
    Terminal,
    /// The frames that wait to be written.
    Wire,
    /// The end of the control stream.
    Finish,
}

/// Where the task is.
#[derive(Clone, Copy, Debug, PartialEq, Eq, Structural)]
pub struct Turn {
    /// How many turns it has behind it.
    pub turn: usize,
    /// What it works on.
    pub phase: Phase,
    /// Whether it got on in this turn.
    pub made_progress: bool,
}

/// What came of a phase.
#[derive(Clone, Copy, Debug, PartialEq, Eq, Structural)]
pub enum PhaseEvent {
    /// The task got on.
    Progress,
    /// It did not.
    Idle,
    /// It failed.
    Failed,
}

/// What the task does next.
#[derive(Clone, Copy, Debug, PartialEq, Eq, Structural)]
pub enum TaskStep {
    /// Work on the phase that its turn names.
    Work,
    /// Wait to be woken.
    Wait,
    /// Wait, and be woken at once.
    Yield,
    /// End: it failed.
    Fail,
}

/// The phase behind another, if there is one.
pub open spec fn next_phase(phase: Phase) -> Option<Phase> {
    match phase {
        Phase::Receive => Some(Phase::Feedback),
        Phase::Feedback => Some(Phase::Outbound),
        Phase::Outbound => Some(Phase::Replay),
        Phase::Replay => Some(Phase::Terminal),
        Phase::Terminal => Some(Phase::Wire),
        Phase::Wire => Some(Phase::Finish),
        Phase::Finish => None,
    }
}

/// Whether to get on in a phase is worth another turn.
pub open spec fn counts(phase: Phase) -> bool {
    phase == Phase::Receive || phase == Phase::Outbound || phase == Phase::Replay
}

/// What the task does after a phase.
pub open spec fn phase_done(at: Turn, event: PhaseEvent) -> (Turn, TaskStep) {
    let made_progress = at.made_progress || event == PhaseEvent::Progress && counts(at.phase);
    if event == PhaseEvent::Failed {
        (at, TaskStep::Fail)
    } else {
        match next_phase(at.phase) {
            Some(phase) => (Turn { phase, made_progress, ..at }, TaskStep::Work),
            None => if !made_progress {
                (at, TaskStep::Wait)
            } else if at.turn + 1 == FLOW_TASK_TURN_BUDGET {
                (at, TaskStep::Yield)
            } else {
                (
                    Turn { turn: (at.turn + 1) as usize, phase: Phase::Receive, made_progress: false },
                    TaskStep::Work,
                )
            },
        }
    }
}

impl Turn {
    /// The task has not used up its turns.
    pub open spec fn wf(self) -> bool {
        self.turn < FLOW_TASK_TURN_BUDGET
    }

    /// The first turn of a poll.
    pub fn first() -> (at: Self)
        ensures
            at.wf(),
            at == (Turn { turn: 0, phase: Phase::Receive, made_progress: false }),
    {
        Turn { turn: 0, phase: Phase::Receive, made_progress: false }
    }

    /// Takes what came of the phase.
    pub fn after_phase(&mut self, event: PhaseEvent) -> (step: TaskStep)
        requires
            old(self).wf(),
        ensures
            final(self).wf(),
            (*final(self), step) == phase_done(*old(self), event),
    {
        if event == PhaseEvent::Failed {
            return TaskStep::Fail;
        }
        let progressed: bool = self.made_progress || (event == PhaseEvent::Progress && match self.phase {
            Phase::Receive | Phase::Outbound | Phase::Replay => true,
            _ => false,
        });
        let next = match self.phase {
            Phase::Receive => Phase::Feedback,
            Phase::Feedback => Phase::Outbound,
            Phase::Outbound => Phase::Replay,
            Phase::Replay => Phase::Terminal,
            Phase::Terminal => Phase::Wire,
            Phase::Wire => Phase::Finish,
            Phase::Finish => return match task::after_turn(self.turn, progressed) {
                TurnStep::Wait => TaskStep::Wait,
                TurnStep::Yield => TaskStep::Yield,
                TurnStep::Again => {
                    self.turn = self.turn + 1;
                    self.phase = Phase::Receive;
                    self.made_progress = false;
                    TaskStep::Work
                },
            },
        };
        self.phase = next;
        self.made_progress = progressed;
        TaskStep::Work
    }
}

/// How many phases the task can still work on before it waits.
pub open spec fn phases_left(at: Turn) -> int {
    let behind: int = match at.phase {
        Phase::Receive => 0,
        Phase::Feedback => 1,
        Phase::Outbound => 2,
        Phase::Replay => 3,
        Phase::Terminal => 4,
        Phase::Wire => 5,
        Phase::Finish => 6,
    };
    (FLOW_TASK_TURN_BUDGET - at.turn) * 7 - behind
}

/// A poll of the task ends: each phase that it works on leaves it fewer.
pub proof fn law_turns_come_to_an_end(at: Turn, event: PhaseEvent)
    requires
        at.wf(),
        phase_done(at, event).1 == TaskStep::Work,
    ensures
        0 < phases_left(phase_done(at, event).0) < phases_left(at),
        phases_left(at) <= FLOW_TASK_TURN_BUDGET * 7,
{
}

/// A task that got on does not fall asleep with work left: it takes another turn, or it
/// comes back at once.
pub proof fn law_progress_is_followed_up(at: Turn, event: PhaseEvent)
    requires
        at.wf(),
        at.phase == Phase::Finish,
        event != PhaseEvent::Failed,
    ensures
        at.made_progress ==> phase_done(at, event).1 == TaskStep::Work || phase_done(at, event).1 == TaskStep::Yield,
        !at.made_progress ==> phase_done(at, event).1 == TaskStep::Wait,
{
}

// ---------------------------------------------------------------------------
// The end
// ---------------------------------------------------------------------------

/// A flow that failed with an error, which the handle learns unless it knows of another.
pub open spec fn failed_with(flow: FlowModel, kind: FailureKind, message: String) -> FlowModel {
    state::wake_writer(
        state::wake_reader(
            FlowModel {
                error: match flow.error {
                    Some(failure) => Some(failure),
                    None => Some(Failure { kind, message }),
                },
                ..flow
            },
        ),
    )
}

/// Ends a flow with an error of its task. Whether both directions of the control stream are
/// to be reset for a breach of the protocol is told.
pub fn fail_task(flow: &mut FlowState, error: FlowTaskError, message: String) -> (reset: bool)
    requires
        old(flow).wf(),
    ensures
        final(flow).wf(),
        reset == task::protocol_violation(error),
        final(flow)@ == failed_with(
            old(flow)@,
            if error is PeerReset {
                FailureKind::ConnectionReset
            } else {
                FailureKind::ConnectionAborted
            },
            message,
        ),
{
    flow.fail(error.failure_kind(), message);
    error.is_protocol_violation()
}

/// A flow whose task is gone.
pub open spec fn ended(flow: FlowModel) -> FlowModel {
    state::wake_writer(state::wake_reader(FlowModel { task_stopped: true, ..flow }))
}

/// A flow that keeps nothing more for its peer.
pub open spec fn emptied(flow: FlowModel) -> FlowModel {
    state::wake_writer(FlowModel { outbound: Seq::empty(), retained_bytes: 0, retained_chunks: 0, ..flow })
}

/// Ends a flow whose task is dropped: nothing is kept any more, and where the runtime
/// stopped the handle learns so.
pub fn end_task(flow: &mut FlowState, runtime_stopped: bool)
    requires
        old(flow).wf(),
    ensures
        final(flow).wf(),
        !runtime_stopped ==> final(flow)@ == ended(emptied(old(flow)@)),
        runtime_stopped ==> exists|message: String| #[trigger]
            message@ == "QUICP host runtime stopped"@ && final(flow)@ == ended(
                failed_with(emptied(old(flow)@), FailureKind::ConnectionAborted, message),
            ),
{
    flow.discard_retained();
    if runtime_stopped {
        let message = String::from_str("QUICP host runtime stopped");
        let ghost told = message;
        flow.fail(FailureKind::ConnectionAborted, message);
        flow.mark_task_stopped();
        assert(told@ == "QUICP host runtime stopped"@);
    } else {
        flow.mark_task_stopped();
    }
}

/// Whoever waits for a flow is woken when its task ends, and nothing is kept for the peer.
pub proof fn law_ended_task_wakes_everybody(flow: FlowModel)
    ensures
        ({
            let after = ended(emptied(flow));
            &&& flow.reader_waits ==> after.wakes.reader
            &&& flow.writer_waits ==> after.wakes.writer
            &&& !after.reader_waits && !after.writer_waits
            &&& after.task_stopped && after.retained_bytes == 0 && after.retained_chunks == 0
            &&& after.outbound.len() == 0
        }),
{
}

}
