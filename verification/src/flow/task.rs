//! What the control task of a flow does next.
use crate::flow::state;
use crate::flow::state::{FailureKind, FlowModel, FlowState, Outbound};
use crate::recovery::RecoveryError;
use crate::storage;
use bytes::Bytes;
use std::collections::VecDeque;
use vstd::prelude::*;

verus! {

/// How many turns the control task takes before it yields.
pub const FLOW_TASK_TURN_BUDGET: usize = 32;

/// Errors of the control task.
#[derive(Clone, Copy, Debug, PartialEq, Eq, Structural)]
pub enum FlowTaskError {
    /// A control frame is malformed or too large.
    Codec,
    /// The control stream finished before its end was announced.
    FinishedEarly,
    /// A control frame exceeds the negotiated limit.
    ControlLimit,
    /// A control frame came that has no place behind the opening.
    UnexpectedControl,
    /// The peer reset the flow with this code.
    PeerReset(u64),
    /// Reading the control stream failed.
    Read,
    /// Writing the control stream failed.
    Write,
    /// Finishing the control stream failed.
    Finish,
    /// The control stream accepted no bytes.
    WriteZero,
    /// A datagram could not be sent.
    Datagram,
    /// The connection failed.
    Connection,
    /// The peer's data cannot be right.
    Recovery(RecoveryError),
}

/// Whether an error is the peer's breach of the protocol.
pub open spec fn protocol_violation(error: FlowTaskError) -> bool {
    match error {
        FlowTaskError::Codec => true,
        FlowTaskError::FinishedEarly => true,
        FlowTaskError::ControlLimit => true,
        FlowTaskError::UnexpectedControl => true,
        FlowTaskError::Recovery(inner) => inner != RecoveryError::Capacity,
        _ => false,
    }
}

impl FlowTaskError {
    /// Whether the error is the peer's breach of the protocol, for which the flow is reset.
    pub fn is_protocol_violation(&self) -> (violation: bool)
        ensures
            violation == protocol_violation(*self),
    {
        match self {
            FlowTaskError::Codec => true,
            FlowTaskError::FinishedEarly => true,
            FlowTaskError::ControlLimit => true,
            FlowTaskError::UnexpectedControl => true,
            FlowTaskError::Recovery(inner) => *inner != RecoveryError::Capacity,
            _ => false,
        }
    }

    /// The kind of failure that the handle of the flow learns.
    pub fn failure_kind(&self) -> (kind: FailureKind)
        ensures
            kind == (if self is PeerReset {
                FailureKind::ConnectionReset
            } else {
                FailureKind::ConnectionAborted
            }),
    {
        match self {
            FlowTaskError::PeerReset(_) => FailureKind::ConnectionReset,
            _ => FailureKind::ConnectionAborted,
        }
    }
}

/// What is tried to get bytes to the peer that it did not acknowledge.
#[derive(Clone, Copy, Debug, PartialEq, Eq, Structural)]
pub enum ReplayStage {
    /// Repair symbols.
    Repair,
    /// The bytes again, as datagrams.
    SourceReplay,
    /// The bytes again, on the control stream.
    ReliableFallback,
}

/// What a frame of the control stream says.
#[derive(Debug)]
pub enum FrameContent {
    /// Bytes of the flow.
    StreamData {
        /// The offset of the first byte.
        offset: u64,
        /// The bytes.
        bytes: Bytes,
    },
    /// Where the bytes of the flow end.
    Fin(u64),
    /// What was received.
    Ack {
        /// Everything before this offset.
        contiguous: u64,
        /// And these ranges.
        ranges: Vec<(u64, u64)>,
    },
    /// Up to where the peer may send.
    MaxOffset(u64),
}

/// A frame that waits to be written to the control stream.
#[derive(Debug)]
pub struct WireFrame {
    /// What it says.
    pub content: FrameContent,
    /// Up to where the flow's bytes are sent once it is written.
    pub flushed_offset: Option<u64>,
    /// Up to where the peer's bytes are acknowledged once it is written.
    pub acked_offset: Option<u64>,
}

/// What the connection can do.
#[derive(Clone, Copy, Debug, PartialEq, Eq, Structural)]
pub struct BackendFacts {
    /// Whether it sends datagrams.
    pub datagram_enabled: bool,
    /// Whether a flow may not go without them.
    pub adaptive_required: bool,
    /// The most bytes of a flow in one datagram.
    pub max_source_payload: usize,
    /// The most bytes of a flow in one frame of the control stream.
    pub max_stream_payload: usize,
}

/// The control task of a flow.
#[derive(Debug)]
pub struct FlowTask {
    datagram_enabled: bool,
    replay_stage: ReplayStage,
    replay_cursor: Option<u64>,
    replay_timer: bool,
    fin_queued: bool,
    send_finished: bool,
    acked_receive_offset: u64,
    pending_ack: Option<(u64, Vec<(u64, u64)>)>,
    pending_credit: Option<u64>,
    wire_queue: VecDeque<WireFrame>,
    wire_current: Option<WireFrame>,
}

/// The content of a frame.
pub ghost enum FrameModel {
    /// Bytes of the flow, from an offset on.
    StreamData(u64, Seq<u8>),
    /// Where the bytes of the flow end.
    Fin(u64),
    /// What was received: everything before an offset, and some ranges.
    Ack(u64, Seq<(u64, u64)>),
    /// Up to where the peer may send.
    MaxOffset(u64),
}

/// A frame that waits to be written, and what is so once it is.
pub ghost struct WireModel {
    /// What it says.
    pub content: FrameModel,
    /// Up to where the flow's bytes are sent then.
    pub flushed_offset: Option<u64>,
    /// Up to where the peer's bytes are acknowledged then.
    pub acked_offset: Option<u64>,
}

/// The content of a control task.
#[verifier::ext_equal]
pub ghost struct TaskModel {
    /// Whether the flow uses datagrams.
    pub datagram_enabled: bool,
    /// What is tried next to get lost bytes to the peer.
    pub replay_stage: ReplayStage,
    /// The chunk that was sent again last.
    pub replay_cursor: Option<u64>,
    /// Whether a timer runs for that.
    pub replay_timer: bool,
    /// Whether the end was announced.
    pub fin_queued: bool,
    /// Whether the control stream is finished.
    pub send_finished: bool,
    /// Up to where acknowledgments were written.
    pub acked_receive_offset: u64,
    /// An acknowledgment that waits to become a frame.
    pub pending_ack: Option<(u64, Seq<(u64, u64)>)>,
    /// A limit that waits to become a frame.
    pub pending_credit: Option<u64>,
    /// The frames that wait to be written.
    pub wire_queue: Seq<WireModel>,
    /// The frame that is being written.
    pub wire_current: Option<WireModel>,
}

/// The content of a frame.
pub open spec fn content_model(content: FrameContent) -> FrameModel {
    match content {
        FrameContent::StreamData { offset, bytes } => FrameModel::StreamData(offset, storage::contents(bytes)),
        FrameContent::Fin(offset) => FrameModel::Fin(offset),
        FrameContent::Ack { contiguous, ranges } => FrameModel::Ack(contiguous, ranges@),
        FrameContent::MaxOffset(maximum) => FrameModel::MaxOffset(maximum),
    }
}

/// The content of a frame that waits.
pub open spec fn wire_model(frame: WireFrame) -> WireModel {
    WireModel {
        content: content_model(frame.content),
        flushed_offset: frame.flushed_offset,
        acked_offset: frame.acked_offset,
    }
}

/// The content of a frame, where there is one.
pub open spec fn current_model(frame: Option<WireFrame>) -> Option<WireModel> {
    match frame {
        Some(waiting) => Some(wire_model(waiting)),
        None => None,
    }
}

/// The content of an acknowledgment, where there is one.
pub open spec fn ack_model(ack: Option<(u64, Vec<(u64, u64)>)>) -> Option<(u64, Seq<(u64, u64)>)> {
    match ack {
        Some((contiguous, ranges)) => Some((contiguous, ranges@)),
        None => None,
    }
}

impl View for FlowTask {
    type V = TaskModel;

    closed spec fn view(&self) -> TaskModel {
        TaskModel {
            datagram_enabled: self.datagram_enabled,
            replay_stage: self.replay_stage,
            replay_cursor: self.replay_cursor,
            replay_timer: self.replay_timer,
            fin_queued: self.fin_queued,
            send_finished: self.send_finished,
            acked_receive_offset: self.acked_receive_offset,
            pending_ack: ack_model(self.pending_ack),
            pending_credit: self.pending_credit,
            wire_queue: self.wire_queue@.map_values(|frame: WireFrame| wire_model(frame)),
            wire_current: current_model(self.wire_current),
        }
    }
}

/// The task once it looked whether the connection still sends datagrams.
pub open spec fn noticed(task: TaskModel, facts: BackendFacts) -> TaskModel {
    TaskModel { datagram_enabled: task.datagram_enabled && facts.datagram_enabled, ..task }
}

/// The task with one more frame of the flow's bytes to write.
pub open spec fn with_stream_data(task: TaskModel, offset: u64, bytes: Seq<u8>, end: u64) -> TaskModel {
    TaskModel {
        wire_queue: task.wire_queue.push(
            WireModel {
                content: FrameModel::StreamData(offset, bytes),
                flushed_offset: Some(end),
                acked_offset: None,
            },
        ),
        ..task
    }
}

/// What comes of looking for bytes to send.
#[derive(Debug)]
pub enum OutboundStep {
    /// There are none, or none may be sent now.
    Idle,
    /// These are to be sent as a datagram.
    SendSource {
        /// The bytes.
        chunk: Outbound,
        /// The offset behind them.
        end: u64,
    },
    /// These are to be kept, and then written to the control stream.
    SendStream {
        /// The bytes.
        chunk: Outbound,
        /// The offset behind them.
        end: u64,
    },
}

/// The smaller of two numbers.
pub open spec fn smaller(left: int, right: int) -> int {
    if left < right {
        left
    } else {
        right
    }
}

/// How many bytes of a chunk go out at once: no more than one datagram or frame takes, and
/// no more than the peer lets this end send.
pub open spec fn send_length(datagrams: bool, facts: BackendFacts, credit: int, length: int) -> int {
    smaller(
        smaller(
            if datagrams {
                facts.max_source_payload as int
            } else {
                facts.max_stream_payload as int
            },
            credit,
        ),
        length,
    )
}

/// What looking for bytes to send comes to.
pub open spec fn outbound_prepared(
    task: TaskModel,
    flow: FlowModel,
    facts: BackendFacts,
    result: Result<OutboundStep, FlowTaskError>,
    task_after: TaskModel,
    flow_after: FlowModel,
) -> bool {
    let seen = noticed(task, facts);
    if flow.outbound.len() == 0 || flow.outbound[0].0 >= flow.peer_max_offset {
        result matches Ok(OutboundStep::Idle) && task_after == seen && flow_after == flow
    } else if seen.datagram_enabled && facts.max_source_payload == 0 && facts.adaptive_required {
        &&& result matches Err(error) && error == FlowTaskError::Datagram
        &&& task_after == seen
        &&& flow_after == (FlowModel { outbound: flow.outbound.skip(1), ..flow })
    } else {
        let datagrams = seen.datagram_enabled && facts.max_source_payload != 0;
        let (offset, bytes) = flow.outbound[0];
        let length = send_length(datagrams, facts, flow.peer_max_offset - offset, bytes.len() as int);
        let end = (offset + length) as u64;
        let cut = bytes.len() > length;
        if cut && flow.retained_chunks >= flow.replay_chunk_limit {
            &&& result matches Ok(OutboundStep::Idle)
            &&& task_after == (TaskModel { datagram_enabled: datagrams, ..seen })
            &&& flow_after == flow
        } else {
            &&& task_after == (TaskModel { datagram_enabled: datagrams, ..seen })
            &&& flow_after == if cut {
                FlowModel {
                    outbound: seq![(end, bytes.skip(length))] + flow.outbound.skip(1),
                    retained_chunks: flow.retained_chunks + 1,
                    ..flow
                }
            } else {
                FlowModel { outbound: flow.outbound.skip(1), ..flow }
            }
            &&& match result {
                Ok(OutboundStep::SendSource { chunk, end: behind }) => datagrams && state::chunk_model(chunk) == (
                    offset,
                    bytes.take(length),
                ) && behind == end && state::returns_to(flow_after, state::chunk_model(chunk)),
                Ok(OutboundStep::SendStream { chunk, end: behind }) => !datagrams && state::chunk_model(chunk) == (
                    offset,
                    bytes.take(length),
                ) && behind == end && end <= flow_after.next_send_offset,
                _ => false,
            }
        }
    }
}

/// What became of a datagram.
#[derive(Clone, Copy, Debug, PartialEq, Eq, Structural)]
pub enum SourceEvent {
    /// It was sent.
    Sent,
    /// There is no room for it now.
    Blocked,
    /// The peer does not take datagrams, or none of this size.
    Refused,
    /// The connection is gone.
    Lost,
}

/// What is to be done with a chunk after its datagram.
#[derive(Debug)]
pub enum SourceStep {
    /// It is to be kept until the peer has it.
    Keep(Outbound),
    /// It waits again.
    Blocked,
    /// It is to be kept, and then written to the control stream.
    SendStream(Outbound),
}

/// What a look at the timer of lost bytes, or the outcome of trying to get them to the
/// peer, leads to.
#[derive(Clone, Copy, Debug, PartialEq, Eq, Structural)]
pub enum ReplayAction {
    /// Nothing can be done now.
    Idle,
    /// Something was done.
    Progress,
    /// Something was done, and the timer starts again.
    RestartTimer,
    /// Ask how many repair symbols may be sent.
    AskRepairBudget,
    /// Send so many repair symbols.
    SendRepairs(usize),
    /// Send the chunk behind the cursor again, as a datagram.
    SendSource(Option<u64>),
    /// Write the chunk behind the cursor again, to the control stream.
    SendStream(Option<u64>),
}

/// Where lost bytes go once no repair symbols are left to try.
pub open spec fn after_repair(task: TaskModel) -> ReplayAction {
    if task.replay_stage != ReplayStage::ReliableFallback && task.datagram_enabled {
        ReplayAction::SendSource(task.replay_cursor)
    } else if task.wire_current is Some || task.wire_queue.len() > 0 {
        ReplayAction::Idle
    } else {
        ReplayAction::SendStream(task.replay_cursor)
    }
}

/// A look at the timer of lost bytes.
pub open spec fn replay_begun(task: TaskModel, facts: BackendFacts, fired: bool, kept_bytes: int) -> (
    TaskModel,
    ReplayAction,
) {
    let seen = noticed(task, facts);
    if !seen.replay_timer || !fired {
        (seen, ReplayAction::Idle)
    } else if kept_bytes == 0 {
        (
            TaskModel {
                replay_timer: false,
                replay_stage: ReplayStage::Repair,
                replay_cursor: None,
                ..seen
            },
            ReplayAction::Progress,
        )
    } else if seen.replay_stage == ReplayStage::Repair && seen.datagram_enabled {
        (seen, ReplayAction::AskRepairBudget)
    } else {
        (seen, after_repair(seen))
    }
}

/// What the answer about repair symbols leads to.
pub open spec fn budget_known(task: TaskModel, budget: usize) -> (TaskModel, ReplayAction) {
    if budget == 0 {
        (TaskModel { replay_stage: ReplayStage::SourceReplay, ..task }, ReplayAction::RestartTimer)
    } else {
        (task, ReplayAction::SendRepairs(budget))
    }
}

/// What became of repair symbols.
#[derive(Clone, Copy, Debug, PartialEq, Eq, Structural)]
pub enum RepairEvent {
    /// So many were sent.
    Sent(usize),
    /// The peer does not take datagrams, or none of this size.
    Refused,
    /// The connection is gone.
    Lost,
}

/// What the outcome of repair symbols leads to.
pub open spec fn repairs_tried(task: TaskModel, event: RepairEvent, adaptive_required: bool) -> Result<
    (TaskModel, ReplayAction),
    FlowTaskError,
> {
    match event {
        RepairEvent::Sent(count) => if count != 0 {
            Ok((TaskModel { replay_stage: ReplayStage::SourceReplay, ..task }, ReplayAction::RestartTimer))
        } else {
            Ok((task, after_repair(task)))
        },
        RepairEvent::Refused => if adaptive_required {
            Err(FlowTaskError::Datagram)
        } else {
            let without = TaskModel { datagram_enabled: false, ..task };
            Ok((without, after_repair(without)))
        },
        RepairEvent::Lost => Err(FlowTaskError::Datagram),
    }
}

/// What sending a chunk again leads to: with none left the control stream is tried.
pub open spec fn source_replayed(task: TaskModel, sent: Option<(u64, SourceEvent)>) -> Result<
    (TaskModel, ReplayAction),
    FlowTaskError,
> {
    match sent {
        None => Ok(
            (
                TaskModel {
                    replay_stage: ReplayStage::ReliableFallback,
                    replay_cursor: None,
                    ..task
                },
                ReplayAction::RestartTimer,
            ),
        ),
        Some((offset, SourceEvent::Sent)) => Ok(
            (TaskModel { replay_cursor: Some(offset), ..task }, ReplayAction::Progress),
        ),
        Some((_, SourceEvent::Blocked)) => Ok((task, ReplayAction::Idle)),
        Some(_) => Err(FlowTaskError::Datagram),
    }
}

/// What writing a chunk again leads to: with none left everything is on its way.
pub open spec fn stream_replayed(task: TaskModel, chunk: Option<(u64, Seq<u8>)>) -> TaskModel {
    match chunk {
        Some((offset, bytes)) => TaskModel {
            replay_cursor: Some(offset),
            ..with_stream_data(task, offset, bytes, (offset + bytes.len()) as u64)
        },
        None => TaskModel {
            datagram_enabled: false,
            replay_stage: ReplayStage::Repair,
            replay_cursor: None,
            replay_timer: false,
            ..task
        },
    }
}

/// What an acknowledgment does to the task: bytes that arrived start the search for lost
/// ones anew, and with none kept it ends. The second part says whether the timer has to be
/// set.
pub open spec fn ack_applied(task: TaskModel, released: int, kept_bytes: int) -> (TaskModel, bool) {
    let anew = if released != 0 {
        TaskModel {
            replay_stage: ReplayStage::Repair,
            replay_cursor: None,
            replay_timer: task.replay_timer || kept_bytes != 0 && task.datagram_enabled,
            ..task
        }
    } else {
        task
    };
    if kept_bytes == 0 {
        (
            TaskModel {
                replay_stage: ReplayStage::Repair,
                replay_cursor: None,
                replay_timer: false,
                ..anew
            },
            false,
        )
    } else {
        (anew, released != 0 && anew.replay_timer)
    }
}

/// The task once the frame that is written next is known: the oldest that waits, or else
/// an acknowledgment, or else a limit.
pub open spec fn frame_chosen(task: TaskModel) -> TaskModel {
    if task.wire_current is Some {
        task
    } else if task.wire_queue.len() > 0 {
        TaskModel { wire_current: Some(task.wire_queue[0]), wire_queue: task.wire_queue.skip(1), ..task }
    } else {
        match task.pending_ack {
            Some((contiguous, ranges)) => TaskModel {
                wire_current: Some(
                    WireModel {
                        content: FrameModel::Ack(contiguous, ranges),
                        flushed_offset: None,
                        acked_offset: Some(contiguous),
                    },
                ),
                pending_ack: None,
                ..task
            },
            None => match task.pending_credit {
                Some(maximum) => TaskModel {
                    wire_current: Some(
                        WireModel {
                            content: FrameModel::MaxOffset(maximum),
                            flushed_offset: None,
                            acked_offset: None,
                        },
                    ),
                    pending_credit: None,
                    ..task
                },
                None => task,
            },
        }
    }
}

/// Whether the task has nothing left to write.
pub open spec fn nothing_to_write(task: TaskModel) -> bool {
    task.wire_current is None && task.wire_queue.len() == 0 && task.pending_ack is None && task.pending_credit is None
}

impl FlowTask {
    /// The task of a new flow.
    pub fn new(adaptive: bool) -> (task: Self)
        ensures
            task@ == (TaskModel {
                datagram_enabled: adaptive,
                replay_stage: ReplayStage::Repair,
                replay_cursor: None,
                replay_timer: false,
                fin_queued: false,
                send_finished: false,
                acked_receive_offset: 0,
                pending_ack: None,
                pending_credit: None,
                wire_queue: Seq::empty(),
                wire_current: None,
            }),
    {
        let task = FlowTask {
            datagram_enabled: adaptive,
            replay_stage: ReplayStage::Repair,
            replay_cursor: None,
            replay_timer: false,
            fin_queued: false,
            send_finished: false,
            acked_receive_offset: 0,
            pending_ack: None,
            pending_credit: None,
            wire_queue: VecDeque::new(),
            wire_current: None,
        };
        assert(task@.wire_queue =~= Seq::empty());
        task
    }

    fn notice(&mut self, facts: BackendFacts)
        ensures
            final(self)@ == noticed(old(self)@, facts),
    {
        if self.datagram_enabled && !facts.datagram_enabled {
            self.datagram_enabled = false;
        }
    }

    /// Looks for bytes to send, and cuts off what does not go out at once.
    #[verifier::rlimit(50)]
    #[verifier::spinoff_prover]
    pub fn prepare_outbound(&mut self, flow: &mut FlowState, facts: BackendFacts) -> (result: Result<
        OutboundStep,
        FlowTaskError,
    >)
        requires
            old(flow).wf(),
        ensures
            final(flow).wf(),
            outbound_prepared(old(self)@, old(flow)@, facts, result, final(self)@, final(flow)@),
    {
        self.notice(facts);
        let ghost before = flow@;
        proof {
            flow.lemma_wf();
        }
        let chunk = match flow.take_outbound() {
            None => return Ok(OutboundStep::Idle),
            Some(chunk) => chunk,
        };
        let ghost taken = state::chunk_model(chunk);
        proof {
            lemma_taken_returns(before);
            assert(seq![taken] + flow@.outbound =~= before.outbound);
        }
        let maximum: u64 = flow.peer_maximum();
        if chunk.offset >= maximum {
            flow.put_back(chunk);
            return Ok(OutboundStep::Idle);
        }
        if self.datagram_enabled && facts.max_source_payload == 0 {
            if facts.adaptive_required {
                return Err(FlowTaskError::Datagram);
            }
            self.datagram_enabled = false;
        }
        let step = send_front(flow, chunk, self.datagram_enabled, facts, maximum);
        proof {
            let rest = before.outbound.skip(1);
            assert(seq![taken] + rest =~= before.outbound);
        }
        Ok(step)
    }

    /// Takes the outcome of a datagram with bytes of the flow.
    pub fn after_source(
        &mut self,
        flow: &mut FlowState,
        chunk: Outbound,
        event: SourceEvent,
        adaptive_required: bool,
    ) -> (result: Result<SourceStep, FlowTaskError>)
        requires
            old(flow).wf(),
            state::returns_to(old(flow)@, state::chunk_model(chunk)),
        ensures
            final(flow).wf(),
            match event {
                SourceEvent::Sent => result == Ok::<SourceStep, FlowTaskError>(SourceStep::Keep(chunk))
                    && final(self)@ == old(self)@ && final(flow)@ == old(flow)@,
                SourceEvent::Blocked => result matches Ok(SourceStep::Blocked) && final(self)@ == old(self)@
                    && final(flow)@ == (FlowModel {
                    outbound: seq![state::chunk_model(chunk)] + old(flow)@.outbound,
                    ..old(flow)@
                }),
                SourceEvent::Refused => if adaptive_required {
                    result matches Err(error) && error == FlowTaskError::Datagram && final(self)@ == old(self)@
                        && final(flow)@ == old(flow)@
                } else {
                    result == Ok::<SourceStep, FlowTaskError>(SourceStep::SendStream(chunk)) && final(self)@ == (
                    TaskModel { datagram_enabled: false, ..old(self)@ }) && final(flow)@ == old(flow)@
                },
                SourceEvent::Lost => result matches Err(error) && error == FlowTaskError::Connection && final(self)@
                    == old(self)@ && final(flow)@ == old(flow)@,
            },
    {
        match event {
            SourceEvent::Sent => Ok(SourceStep::Keep(chunk)),
            SourceEvent::Blocked => {
                flow.put_back(chunk);
                Ok(SourceStep::Blocked)
            },
            SourceEvent::Refused => {
                if adaptive_required {
                    return Err(FlowTaskError::Datagram);
                }
                self.datagram_enabled = false;
                Ok(SourceStep::SendStream(chunk))
            },
            SourceEvent::Lost => Err(FlowTaskError::Connection),
        }
    }

    /// Goes on once bytes that were sent as a datagram are kept. The result says whether the
    /// timer has to be set.
    pub fn after_kept(&mut self, flow: &mut FlowState, end: u64) -> (set_timer: bool)
        requires
            old(flow).wf(),
            end <= old(flow)@.next_send_offset,
        ensures
            final(flow).wf(),
            set_timer == !old(self)@.replay_timer,
            final(self)@ == (TaskModel { replay_timer: true, ..old(self)@ }),
            final(flow)@ == (match old(flow)@.flush_target {
                Some(target) if end >= target && old(flow)@.outbound.len() == 0 => state::wake_writer(
                    FlowModel { flushed_offset: end, ..old(flow)@ },
                ),
                _ => old(flow)@,
            }),
    {
        let set_timer: bool = !self.replay_timer;
        self.replay_timer = true;
        flow.sent_directly(end);
        set_timer
    }

    /// Puts bytes of the flow into the queue of the control stream.
    pub fn queue_stream_data(&mut self, offset: u64, bytes: Bytes, end: u64)
        ensures
            final(self)@ == with_stream_data(old(self)@, offset, storage::contents(bytes), end),
    {
        let ghost before = self@.wire_queue;
        let ghost content = storage::contents(bytes);
        self.wire_queue.push_back(
            WireFrame {
                content: FrameContent::StreamData { offset, bytes },
                flushed_offset: Some(end),
                acked_offset: None,
            },
        );
        assert(self@.wire_queue =~= before.push(
            WireModel {
                content: FrameModel::StreamData(offset, content),
                flushed_offset: Some(end),
                acked_offset: None,
            },
        ));
    }

    fn replay_further(&self) -> (action: ReplayAction)
        ensures
            action == after_repair(self@),
    {
        if self.replay_stage != ReplayStage::ReliableFallback && self.datagram_enabled {
            ReplayAction::SendSource(self.replay_cursor)
        } else if self.wire_current.is_some() || self.wire_queue.len() > 0 {
            ReplayAction::Idle
        } else {
            ReplayAction::SendStream(self.replay_cursor)
        }
    }

    /// Looks at the timer of lost bytes, with so many bytes kept.
    pub fn begin_replay(&mut self, facts: BackendFacts, fired: bool, kept_bytes: usize) -> (action: ReplayAction)
        ensures
            (final(self)@, action) == replay_begun(old(self)@, facts, fired, kept_bytes as int),
    {
        self.notice(facts);
        if !self.replay_timer || !fired {
            return ReplayAction::Idle;
        }
        if kept_bytes == 0 {
            self.replay_timer = false;
            self.replay_stage = ReplayStage::Repair;
            self.replay_cursor = None;
            return ReplayAction::Progress;
        }
        if self.replay_stage == ReplayStage::Repair && self.datagram_enabled {
            ReplayAction::AskRepairBudget
        } else {
            self.replay_further()
        }
    }

    /// Takes how many repair symbols may be sent.
    pub fn after_repair_budget(&mut self, budget: usize) -> (action: ReplayAction)
        ensures
            (final(self)@, action) == budget_known(old(self)@, budget),
    {
        if budget == 0 {
            self.replay_stage = ReplayStage::SourceReplay;
            ReplayAction::RestartTimer
        } else {
            ReplayAction::SendRepairs(budget)
        }
    }

    /// Takes the outcome of repair symbols.
    pub fn after_repairs(&mut self, event: RepairEvent, adaptive_required: bool) -> (result: Result<
        ReplayAction,
        FlowTaskError,
    >)
        ensures
            match repairs_tried(old(self)@, event, adaptive_required) {
                Ok((task, action)) => result == Ok::<ReplayAction, FlowTaskError>(action) && final(self)@ == task,
                Err(error) => result == Err::<ReplayAction, FlowTaskError>(error) && final(self)@ == old(self)@,
            },
    {
        match event {
            RepairEvent::Sent(count) => {
                if count != 0 {
                    self.replay_stage = ReplayStage::SourceReplay;
                    return Ok(ReplayAction::RestartTimer);
                }
                Ok(self.replay_further())
            },
            RepairEvent::Refused => {
                if adaptive_required {
                    return Err(FlowTaskError::Datagram);
                }
                self.datagram_enabled = false;
                Ok(self.replay_further())
            },
            RepairEvent::Lost => Err(FlowTaskError::Datagram),
        }
    }

    /// Takes the outcome of sending the next chunk again: its offset and what became of it,
    /// or that there is none.
    pub fn after_source_replay(&mut self, sent: Option<(u64, SourceEvent)>) -> (result: Result<
        ReplayAction,
        FlowTaskError,
    >)
        ensures
            match source_replayed(old(self)@, sent) {
                Ok((task, action)) => result == Ok::<ReplayAction, FlowTaskError>(action) && final(self)@ == task,
                Err(error) => result == Err::<ReplayAction, FlowTaskError>(error) && final(self)@ == old(self)@,
            },
    {
        match sent {
            None => {
                self.replay_stage = ReplayStage::ReliableFallback;
                self.replay_cursor = None;
                Ok(ReplayAction::RestartTimer)
            },
            Some((offset, event)) => match event {
                SourceEvent::Sent => {
                    self.replay_cursor = Some(offset);
                    Ok(ReplayAction::Progress)
                },
                SourceEvent::Blocked => Ok(ReplayAction::Idle),
                _ => Err(FlowTaskError::Datagram),
            },
        }
    }

    /// Takes the next chunk that is written again, or that there is none.
    pub fn after_stream_replay(&mut self, chunk: Option<Outbound>) -> (result: Result<(), FlowTaskError>)
        ensures
            match chunk {
                Some(given) if given.offset + storage::contents(given.bytes).len() > u64::MAX => result == Err::<
                    (),
                    FlowTaskError,
                >(FlowTaskError::Recovery(RecoveryError::OffsetOverflow)) && final(self)@ == old(self)@,
                Some(given) => result is Ok && final(self)@ == stream_replayed(
                    old(self)@,
                    Some(state::chunk_model(given)),
                ),
                None => result is Ok && final(self)@ == stream_replayed(old(self)@, None),
            },
    {
        match chunk {
            Some(given) => {
                let length: usize = storage::as_slice(&given.bytes).len();
                match given.offset.checked_add(length as u64) {
                    None => Err(FlowTaskError::Recovery(RecoveryError::OffsetOverflow)),
                    Some(end) => {
                        let offset: u64 = given.offset;
                        self.queue_stream_data(offset, given.bytes, end);
                        self.replay_cursor = Some(offset);
                        Ok(())
                    },
                }
            },
            None => {
                self.datagram_enabled = false;
                self.replay_stage = ReplayStage::Repair;
                self.replay_cursor = None;
                self.replay_timer = false;
                Ok(())
            },
        }
    }

    /// Takes what an acknowledgment of the peer released from the kept bytes. The result
    /// says whether the timer has to be set.
    pub fn after_ack(&mut self, flow: &mut FlowState, released_bytes: usize, released_chunks: usize, kept_bytes: usize) -> (
        set_timer: bool)
        requires
            old(flow).wf(),
            released_bytes + state::total(old(flow)@.outbound) <= old(flow)@.retained_bytes,
            released_chunks + old(flow)@.outbound.len() <= old(flow)@.retained_chunks,
        ensures
            final(flow).wf(),
            (final(self)@, set_timer) == ack_applied(old(self)@, released_bytes as int, kept_bytes as int),
            final(flow)@ == (if released_bytes != 0 {
                state::wake_writer(
                    FlowModel {
                        retained_bytes: old(flow)@.retained_bytes - released_bytes,
                        retained_chunks: old(flow)@.retained_chunks - released_chunks,
                        ..old(flow)@
                    },
                )
            } else {
                old(flow)@
            }),
    {
        let mut set_timer: bool = false;
        if released_bytes != 0 {
            flow.release(released_bytes, released_chunks);
            self.replay_stage = ReplayStage::Repair;
            self.replay_cursor = None;
            if self.replay_timer || (kept_bytes != 0 && self.datagram_enabled) {
                self.replay_timer = true;
                set_timer = true;
            }
        }
        if kept_bytes == 0 {
            self.replay_stage = ReplayStage::Repair;
            self.replay_cursor = None;
            self.replay_timer = false;
            set_timer = false;
        }
        set_timer
    }

    /// Takes feedback for the peer that waits to become a frame.
    pub fn queue_feedback(&mut self, ack: Option<(u64, Vec<(u64, u64)>)>, credit: Option<u64>)
        ensures
            final(self)@ == (TaskModel {
                pending_ack: if ack is Some {
                    ack_model(ack)
                } else {
                    old(self)@.pending_ack
                },
                pending_credit: if credit is Some {
                    credit
                } else {
                    old(self)@.pending_credit
                },
                ..old(self)@
            }),
    {
        if ack.is_some() {
            self.pending_ack = ack;
        }
        if credit.is_some() {
            self.pending_credit = credit;
        }
    }

    /// Chooses the frame that is written next. The result says whether there is one.
    pub fn choose_frame(&mut self) -> (found: bool)
        ensures
            final(self)@ == frame_chosen(old(self)@),
            found == (final(self)@.wire_current is Some),
    {
        if self.wire_current.is_some() {
            return true;
        }
        let ghost before = self@;
        assert(before.wire_queue.len() == self.wire_queue@.len());
        if self.wire_queue.len() > 0 {
            assert(before.wire_queue[0] == wire_model(self.wire_queue@[0]));
            self.wire_current = self.wire_queue.pop_front();
            assert(self@.wire_queue =~= before.wire_queue.skip(1));
            return true;
        }
        let mut ack: Option<(u64, Vec<(u64, u64)>)> = None;
        std::mem::swap(&mut ack, &mut self.pending_ack);
        if let Some((contiguous, ranges)) = ack {
            self.wire_current = Some(
                WireFrame {
                    content: FrameContent::Ack { contiguous, ranges },
                    flushed_offset: None,
                    acked_offset: Some(contiguous),
                },
            );
            return true;
        }
        if let Some(maximum) = self.pending_credit {
            self.pending_credit = None;
            self.wire_current = Some(
                WireFrame {
                    content: FrameContent::MaxOffset(maximum),
                    flushed_offset: None,
                    acked_offset: None,
                },
            );
            return true;
        }
        false
    }

    /// The frame that is being written.
    pub fn current_frame(&self) -> (frame: Option<&WireFrame>)
        ensures
            match frame {
                Some(found) => self@.wire_current == Some(wire_model(*found)),
                None => self@.wire_current is None,
            },
    {
        match &self.wire_current {
            Some(frame) => Some(frame),
            None => None,
        }
    }

    /// Takes how many of the `left` bytes of the current frame were written. The result is
    /// up to where the peer's bytes are acknowledged now, if that became known.
    pub fn after_write(&mut self, flow: &mut FlowState, written: usize, left: usize) -> (result: Result<
        Option<u64>,
        FlowTaskError,
    >)
        requires
            old(flow).wf(),
            old(self)@.wire_current matches Some(frame) && (frame.flushed_offset matches Some(end) ==> end
                <= old(flow)@.next_send_offset),
        ensures
            final(flow).wf(),
            ({
                let frame = old(self)@.wire_current->0;
                if written == 0 {
                    result == Err::<Option<u64>, FlowTaskError>(FlowTaskError::WriteZero) && final(self)@
                        == old(self)@ && final(flow)@ == old(flow)@
                } else if written != left {
                    result == Ok::<Option<u64>, FlowTaskError>(None) && final(self)@ == old(self)@ && final(flow)@
                        == old(flow)@
                } else {
                    &&& result == Ok::<Option<u64>, FlowTaskError>(frame.acked_offset)
                    &&& final(self)@ == (TaskModel {
                        wire_current: None,
                        acked_receive_offset: match frame.acked_offset {
                            Some(acked) if acked > old(self)@.acked_receive_offset => acked,
                            _ => old(self)@.acked_receive_offset,
                        },
                        ..old(self)@
                    })
                    &&& final(flow)@ == (match frame.flushed_offset {
                        Some(end) => state::wake_writer(
                            FlowModel {
                                flushed_offset: if end > old(flow)@.flushed_offset {
                                    end
                                } else {
                                    old(flow)@.flushed_offset
                                },
                                ..old(flow)@
                            },
                        ),
                        None => old(flow)@,
                    })
                }
            }),
    {
        if written == 0 {
            return Err(FlowTaskError::WriteZero);
        }
        if written != left {
            return Ok(None);
        }
        let mut current: Option<WireFrame> = None;
        std::mem::swap(&mut current, &mut self.wire_current);
        match current {
            None => Ok(None),
            Some(frame) => {
                if let Some(end) = frame.flushed_offset {
                    flow.written_to_stream(end);
                }
                if let Some(acked) = frame.acked_offset {
                    if acked > self.acked_receive_offset {
                        self.acked_receive_offset = acked;
                    }
                }
                Ok(frame.acked_offset)
            },
        }
    }

    /// Announces the end of the flow's bytes once it is shut down, nothing waits to be sent,
    /// and the peer has everything. The result says whether the timer has to be set.
    pub fn queue_terminal_frames(&mut self, flow: &FlowState, kept_bytes: usize) -> (set_timer: bool)
        ensures
            match flow@.shutdown_target {
                Some(end) if !old(self)@.fin_queued && flow@.outbound.len() == 0 => if kept_bytes == 0 {
                    !set_timer && final(self)@ == (TaskModel {
                        fin_queued: true,
                        wire_queue: old(self)@.wire_queue.push(
                            WireModel {
                                content: FrameModel::Fin(end),
                                flushed_offset: None,
                                acked_offset: None,
                            },
                        ),
                        ..old(self)@
                    })
                } else if old(self)@.datagram_enabled {
                    set_timer == !old(self)@.replay_timer && final(self)@ == (TaskModel {
                        replay_timer: true,
                        ..old(self)@
                    })
                } else {
                    !set_timer && final(self)@ == old(self)@
                },
                _ => !set_timer && final(self)@ == old(self)@,
            },
    {
        if let Some(end) = flow.shutdown_target() {
            if !self.fin_queued && flow.outbound_is_empty() {
                if kept_bytes == 0 {
                    let ghost before = self@.wire_queue;
                    self.wire_queue.push_back(
                        WireFrame { content: FrameContent::Fin(end), flushed_offset: None, acked_offset: None },
                    );
                    assert(self@.wire_queue =~= before.push(
                        WireModel { content: FrameModel::Fin(end), flushed_offset: None, acked_offset: None },
                    ));
                    self.fin_queued = true;
                } else if self.datagram_enabled {
                    let set_timer: bool = !self.replay_timer;
                    self.replay_timer = true;
                    return set_timer;
                }
            }
        }
        false
    }

    /// Tells the writer that the flow is shut down once the announcement is written. The
    /// result says whether the control stream is to be finished: the peer has the last
    /// acknowledgment too.
    pub fn finish_send_if_ready(&mut self, flow: &mut FlowState, contiguous: u64) -> (finish: bool)
        requires
            old(flow).wf(),
        ensures
            final(flow).wf(),
            finish == (old(self)@.fin_queued && nothing_to_write(old(self)@) && !old(self)@.send_finished
                && state::acknowledged_to_the_end(old(flow)@, contiguous, old(self)@.acked_receive_offset)),
            final(self)@ == (TaskModel { send_finished: old(self)@.send_finished || finish, ..old(self)@ }),
            final(flow)@ == (if old(self)@.fin_queued && nothing_to_write(old(self)@) && !old(flow)@.shutdown_done {
                state::wake_writer(FlowModel { shutdown_done: true, ..old(flow)@ })
            } else {
                old(flow)@
            }),
    {
        if !self.fin_queued || self.wire_current.is_some() || self.wire_queue.len() > 0 || self.pending_ack.is_some()
            || self.pending_credit.is_some() {
            return false;
        }
        flow.mark_shutdown_done();
        if !self.send_finished && flow.final_ack_written(contiguous, self.acked_receive_offset) {
            self.send_finished = true;
            true
        } else {
            false
        }
    }
}

/// Bytes that were taken can go back.
proof fn lemma_taken_returns(flow: FlowModel)
    requires
        flow.valid(),
        flow.outbound.len() > 0,
    ensures
        state::returns_to(FlowModel { outbound: flow.outbound.skip(1), ..flow }, flow.outbound[0]),
        flow.outbound[0].0 + flow.outbound[0].1.len() <= flow.next_send_offset,
{
    state::lemma_total_front(flow.outbound);
    lemma_gapless_bound(flow.outbound, flow.next_send_offset as int, 0);
    if flow.outbound.len() > 1 {
        assert(flow.outbound.skip(1)[0] == flow.outbound[1]);
    }
}

/// Sends as much of a chunk that was taken as goes out at once. The back waits again. Where
/// it cannot be counted as another chunk, the whole chunk does.
fn send_front(flow: &mut FlowState, chunk: Outbound, datagrams: bool, facts: BackendFacts, maximum: u64) -> (step: OutboundStep)
    requires
        old(flow).wf(),
        state::returns_to(old(flow)@, state::chunk_model(chunk)),
        chunk.offset + storage::contents(chunk.bytes).len() <= old(flow)@.next_send_offset,
        chunk.offset < maximum,
    ensures
        final(flow).wf(),
        ({
            let bytes = storage::contents(chunk.bytes);
            let length = send_length(datagrams, facts, maximum - chunk.offset, bytes.len() as int);
            let end = (chunk.offset + length) as u64;
            let cut = bytes.len() > length;
            if cut && old(flow)@.retained_chunks >= old(flow)@.replay_chunk_limit {
                step is Idle && final(flow)@ == (FlowModel {
                    outbound: seq![state::chunk_model(chunk)] + old(flow)@.outbound,
                    ..old(flow)@
                })
            } else {
                &&& final(flow)@ == (if cut {
                    FlowModel {
                        outbound: seq![(end, bytes.skip(length))] + old(flow)@.outbound,
                        retained_chunks: old(flow)@.retained_chunks + 1,
                        ..old(flow)@
                    }
                } else {
                    old(flow)@
                })
                &&& match step {
                    OutboundStep::SendSource { chunk: front, end: behind } => datagrams && state::chunk_model(front) == (
                        chunk.offset,
                        bytes.take(length),
                    ) && behind == end && state::returns_to(final(flow)@, state::chunk_model(front)),
                    OutboundStep::SendStream { chunk: front, end: behind } => !datagrams && state::chunk_model(front)
                        == (chunk.offset, bytes.take(length)) && behind == end && end <= final(flow)@.next_send_offset,
                    _ => false,
                }
            }
        }),
{
    let limit: usize = if datagrams {
        facts.max_source_payload
    } else {
        facts.max_stream_payload
    };
    let mut chunk = chunk;
    let whole: usize = storage::as_slice(&chunk.bytes).len();
    let credit: u64 = maximum - chunk.offset;
    let mut length: usize = if limit < whole {
        limit
    } else {
        whole
    };
    if credit < length as u64 {
        length = credit as usize;
    }
    let end: u64 = chunk.offset + length as u64;
    if whole > length {
        if flow.chunks_full() {
            flow.put_back(chunk);
            return OutboundStep::Idle;
        }
        cut_chunk(flow, &mut chunk, length);
    } else {
        assert(storage::contents(chunk.bytes).take(length as int) =~= storage::contents(chunk.bytes));
    }
    if datagrams {
        OutboundStep::SendSource { chunk, end }
    } else {
        OutboundStep::SendStream { chunk, end }
    }
}

/// Cuts a chunk that was taken in two. The back waits again.
fn cut_chunk(flow: &mut FlowState, chunk: &mut Outbound, length: usize)
    requires
        old(flow).wf(),
        state::returns_to(old(flow)@, state::chunk_model(*old(chunk))),
        length < storage::contents(old(chunk).bytes).len(),
        old(flow)@.retained_chunks < old(flow)@.replay_chunk_limit,
        old(chunk).offset + storage::contents(old(chunk).bytes).len() <= old(flow)@.next_send_offset,
    ensures
        final(flow).wf(),
        ({
            let bytes = storage::contents(old(chunk).bytes);
            &&& state::chunk_model(*final(chunk)) == (old(chunk).offset, bytes.take(length as int))
            &&& final(flow)@ == (FlowModel {
                outbound: seq![((old(chunk).offset + length) as u64, bytes.skip(length as int))]
                    + old(flow)@.outbound,
                retained_chunks: old(flow)@.retained_chunks + 1,
                ..old(flow)@
            })
            &&& state::returns_to(final(flow)@, state::chunk_model(*final(chunk)))
        }),
{
    let ghost before = flow@;
    let rest = storage::split_off(&mut chunk.bytes, length);
    let back = Outbound { offset: chunk.offset + length as u64, bytes: rest };
    flow.count_chunk();
    flow.put_back(back);
    proof {
        state::lemma_total_front(flow@.outbound);
        assert(flow@.outbound.skip(1) =~= before.outbound);
    }
}

proof fn lemma_gapless_bound(chunks: Seq<(u64, Seq<u8>)>, end: int, index: int)
    requires
        state::gapless(chunks, end),
        0 <= index < chunks.len(),
    ensures
        chunks[index].0 + chunks[index].1.len() <= end,
    decreases chunks.len() - index,
{
    if index + 1 < chunks.len() {
        lemma_gapless_bound(chunks, end, index + 1);
    }
}

/// Whether an acknowledgment is due: at once where many records wait for one, else when the
/// timer fired, and never without records.
pub fn ack_due(pending: u32, timer_fired: bool) -> (due: bool)
    ensures
        due == (pending >= state::LOGICAL_ACK_THRESHOLD || pending != 0 && timer_fired),
{
    if pending == 0 || pending >= state::LOGICAL_ACK_THRESHOLD {
        pending != 0
    } else {
        timer_fired
    }
}

/// What the task does after a turn.
#[derive(Clone, Copy, Debug, PartialEq, Eq, Structural)]
pub enum TurnStep {
    /// Another turn.
    Again,
    /// It waits.
    Wait,
    /// It yields, and comes back at once.
    Yield,
}

/// Decides what the task does after a turn.
pub fn after_turn(turn: usize, made_progress: bool) -> (step: TurnStep)
    requires
        turn < FLOW_TASK_TURN_BUDGET,
    ensures
        step == (if !made_progress {
            TurnStep::Wait
        } else if turn + 1 == FLOW_TASK_TURN_BUDGET {
            TurnStep::Yield
        } else {
            TurnStep::Again
        }),
{
    if !made_progress {
        TurnStep::Wait
    } else if turn + 1 == FLOW_TASK_TURN_BUDGET {
        TurnStep::Yield
    } else {
        TurnStep::Again
    }
}

}
