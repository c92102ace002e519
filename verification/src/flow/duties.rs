//! What the control task of a flow does for it, over several of its steps.
use crate::flow::control;
use crate::flow::handle::{Completion, QuicpFlow};
use crate::flow::state;
use crate::flow::state::{Failure, FailureKind, FlowState, Outbound};
use crate::flow::task;
use crate::flow::task::{
    BackendFacts, FlowTask, FlowTaskError, FrameModel, OutboundStep, RepairEvent, ReplayAction, ReplayStage,
    SourceEvent, SourceStep, WireFrame,
};
use crate::flow::turn;
use crate::flow::turn::{
    ControlInput, DecodeEvent, FrameAction, PeerFrame, ReadEvent, ReceiveStep, TaskStart,
};
use crate::recovery::RecoveryError;
use crate::storage;
use bytes::Bytes;
use vstd::prelude::*;

verus! {

// ---------------------------------------------------------------------------
// Sending
// ---------------------------------------------------------------------------

/// The chunk that a step sends, and the offset behind it.
pub open spec fn sent_by(step: OutboundStep) -> Option<(Outbound, u64)> {
    match step {
        OutboundStep::Idle => None,
        OutboundStep::SendSource { chunk, end } => Some((chunk, end)),
        OutboundStep::SendStream { chunk, end } => Some((chunk, end)),
    }
}

/// What is sent next are the first bytes that wait, from their offset on, never behind the
/// offset that the peer allows, and never more than the backend takes at once; the rest of the
/// chunk stays in front of the queue.
pub proof fn law_sending_stays_within_the_credit_of_the_peer(
    running: &mut FlowTask,
    flow: &mut FlowState,
    facts: BackendFacts,
    step: OutboundStep,
)
    requires
        old(flow)@.valid(),
        call_ensures(
            FlowTask::prepare_outbound,
            (running, flow, facts),
            Ok::<OutboundStep, FlowTaskError>(step),
        ),
    ensures
        sent_by(step) matches Some((chunk, end)) ==> {
            let (offset, bytes) = old(flow)@.outbound[0];
            let length = storage::contents(chunk.bytes).len() as int;
            &&& old(flow)@.outbound.len() > 0
            &&& chunk.offset == offset
            &&& storage::contents(chunk.bytes) == bytes.take(length)
            &&& end == offset + length
            &&& end <= old(flow)@.peer_max_offset
            &&& step is SendSource ==> length <= facts.max_source_payload && old(running)@.datagram_enabled
                && facts.datagram_enabled
            &&& step is SendStream ==> length <= facts.max_stream_payload
            &&& if length < bytes.len() {
                &&& final(flow)@.outbound.len() == old(flow)@.outbound.len()
                &&& final(flow)@.outbound[0] == (end, bytes.skip(length))
                &&& final(flow)@.retained_chunks == old(flow)@.retained_chunks + 1
            } else {
                final(flow)@.outbound == old(flow)@.outbound.skip(1)
            }
        },
        step is Idle ==> final(flow)@ == old(flow)@,
        final(flow)@.next_send_offset == old(flow)@.next_send_offset,
        final(flow)@.retained_bytes == old(flow)@.retained_bytes,
{
    if old(flow)@.outbound.len() > 0 {
        let (offset, bytes) = old(flow)@.outbound[0];
        assert(old(flow)@.outbound[0].0 + old(flow)@.outbound[0].1.len() <= u64::MAX);
        assert(bytes.take(bytes.len() as int) =~= bytes);
        if let Some((chunk, end)) = sent_by(step) {
            let length = storage::contents(chunk.bytes).len() as int;
            assert(state::chunk_model(chunk).1 == bytes.take(length));
            if length < bytes.len() {
                assert(final(flow)@.outbound =~= seq![(end, bytes.skip(length))] + old(flow)@.outbound.skip(1));
            }
        }
    }
}

/// Bytes that wait are sent as soon as the peer allows the first of them: with room for a
/// chunk more and a payload that is not empty, the step is not idle, and sends at least one
/// byte.
pub proof fn law_allowed_bytes_are_sent(
    running: &mut FlowTask,
    flow: &mut FlowState,
    facts: BackendFacts,
    step: OutboundStep,
)
    requires
        old(flow)@.valid(),
        old(flow)@.outbound.len() > 0,
        old(flow)@.outbound[0].1.len() > 0,
        old(flow)@.outbound[0].0 < old(flow)@.peer_max_offset,
        old(flow)@.retained_chunks < old(flow)@.replay_chunk_limit,
        facts.max_stream_payload > 0,
        call_ensures(
            FlowTask::prepare_outbound,
            (running, flow, facts),
            Ok::<OutboundStep, FlowTaskError>(step),
        ),
    ensures
        sent_by(step) matches Some((chunk, end)) && storage::contents(chunk.bytes).len() > 0,
        step is SendSource <==> old(running)@.datagram_enabled && facts.datagram_enabled
            && facts.max_source_payload > 0,
{
    assert(old(flow)@.outbound[0].0 + old(flow)@.outbound[0].1.len() <= u64::MAX);
}

/// Without bytes that wait, or without credit for the first of them, nothing is sent.
pub proof fn law_nothing_is_sent_without_credit(
    running: &mut FlowTask,
    flow: &mut FlowState,
    facts: BackendFacts,
    result: Result<OutboundStep, FlowTaskError>,
)
    requires
        old(flow)@.outbound.len() == 0 || old(flow)@.outbound[0].0 >= old(flow)@.peer_max_offset,
        call_ensures(FlowTask::prepare_outbound, (running, flow, facts), result),
    ensures
        result matches Ok(step) && step is Idle,
        final(flow)@ == old(flow)@,
{
}

/// A datagram that the backend cannot take now goes back to the front of the queue; one that
/// it will not take goes over the stream, from then on with all that follows, unless datagrams
/// are required; a lost connection fails the task.
pub proof fn law_refused_datagram_goes_over_the_stream(
    running: &mut FlowTask,
    flow: &mut FlowState,
    chunk: Outbound,
    event: SourceEvent,
    adaptive_required: bool,
    result: Result<SourceStep, FlowTaskError>,
)
    requires
        call_ensures(FlowTask::after_source, (running, flow, chunk, event, adaptive_required), result),
    ensures
        event is Sent ==> result == Ok::<SourceStep, FlowTaskError>(SourceStep::Keep(chunk))
            && final(flow)@ == old(flow)@,
        event is Blocked ==> {
            &&& result matches Ok(SourceStep::Blocked)
            &&& final(flow)@.outbound.len() == old(flow)@.outbound.len() + 1
            &&& final(flow)@.outbound[0] == state::chunk_model(chunk)
            &&& final(flow)@.outbound.skip(1) == old(flow)@.outbound
        },
        event is Refused && !adaptive_required ==> result == Ok::<SourceStep, FlowTaskError>(
            SourceStep::SendStream(chunk),
        ) && !final(running)@.datagram_enabled,
        event is Refused && adaptive_required ==> result == Err::<SourceStep, FlowTaskError>(FlowTaskError::Datagram),
        event is Lost ==> result == Err::<SourceStep, FlowTaskError>(FlowTaskError::Connection),
        !(event is Refused) ==> final(running)@ == old(running)@,
{
    assert(event is Blocked ==> final(flow)@.outbound.skip(1) =~= old(flow)@.outbound);
}

/// Bytes that are queued for the stream are written behind all frames queued before; when
/// their frame is written in full, the flow counts as flushed up to their end.
pub proof fn law_stream_bytes_are_flushed_when_written(
    queuing: &mut FlowTask,
    offset: u64,
    bytes: Bytes,
    end: u64,
    choosing: &mut FlowTask,
    found: bool,
    writing: &mut FlowTask,
    flow: &mut FlowState,
    written: usize,
    left: usize,
    result: Result<Option<u64>, FlowTaskError>,
)
    requires
        old(queuing)@.wire_queue.len() == 0,
        old(queuing)@.wire_current is None,
        call_ensures(FlowTask::queue_stream_data, (queuing, offset, bytes, end), ()),
        old(choosing)@ == final(queuing)@,
        call_ensures(FlowTask::choose_frame, (choosing,), found),
        old(writing)@ == final(choosing)@,
        call_ensures(FlowTask::after_write, (writing, flow, written, left), result),
    ensures
        found,
        final(choosing)@.wire_current matches Some(frame) && frame.content == FrameModel::StreamData(
            offset,
            storage::contents(bytes),
        ),
        written == 0 ==> result == Err::<Option<u64>, FlowTaskError>(FlowTaskError::WriteZero),
        written > 0 && written != left ==> result == Ok::<Option<u64>, FlowTaskError>(None)
            && final(writing)@ == old(writing)@ && final(flow)@ == old(flow)@,
        written > 0 && written == left ==> {
            &&& result is Ok
            &&& final(writing)@.wire_current is None
            &&& final(flow)@.flushed_offset >= end
            &&& final(flow)@.flushed_offset >= old(flow)@.flushed_offset
            &&& final(flow)@.flushed_offset == end || final(flow)@.flushed_offset == old(flow)@.flushed_offset
            &&& old(flow)@.writer_waits ==> final(flow)@.wakes.writer
        },
{
}

/// Frames are written in the order in which they were queued, those that wait in the queue
/// before an acknowledgement, and an acknowledgement before a credit; a frame under way is
/// finished first. Nothing is chosen exactly where nothing is left to write.
pub proof fn law_frames_are_chosen_in_order(running: &mut FlowTask, found: bool)
    requires
        call_ensures(FlowTask::choose_frame, (running,), found),
    ensures
        found <==> !(old(running)@.wire_current is None && old(running)@.wire_queue.len() == 0
            && old(running)@.pending_ack is None && old(running)@.pending_credit is None),
        old(running)@.wire_current is Some ==> final(running)@ == old(running)@,
        old(running)@.wire_current is None && old(running)@.wire_queue.len() > 0 ==> {
            &&& final(running)@.wire_current == Some(old(running)@.wire_queue[0])
            &&& seq![old(running)@.wire_queue[0]] + final(running)@.wire_queue == old(running)@.wire_queue
            &&& final(running)@.pending_ack == old(running)@.pending_ack
            &&& final(running)@.pending_credit == old(running)@.pending_credit
        },
        old(running)@.wire_current is None && old(running)@.wire_queue.len() == 0
            && old(running)@.pending_ack is Some ==> {
            let (contiguous, ranges) = old(running)@.pending_ack->0;
            &&& final(running)@.wire_current matches Some(frame) && frame.content == FrameModel::Ack(contiguous, ranges)
                && frame.acked_offset == Some(contiguous)
            &&& final(running)@.pending_ack is None
            &&& final(running)@.pending_credit == old(running)@.pending_credit
        },
        old(running)@.wire_current is None && old(running)@.wire_queue.len() == 0 && old(running)@.pending_ack is None
            && old(running)@.pending_credit is Some ==> {
            &&& final(running)@.wire_current matches Some(frame) && frame.content == FrameModel::MaxOffset(
                old(running)@.pending_credit->0,
            )
            &&& final(running)@.pending_credit is None
        },
{
    let queue = old(running)@.wire_queue;
    if queue.len() > 0 {
        assert(seq![queue[0]] + queue.skip(1) =~= queue);
    }
}

/// An acknowledgement that was written in full is remembered, and the offset that it covers is
/// never taken back; nothing else moves it.
pub proof fn law_written_acknowledgement_is_remembered(
    running: &mut FlowTask,
    flow: &mut FlowState,
    written: usize,
    left: usize,
    result: Result<Option<u64>, FlowTaskError>,
)
    requires
        old(running)@.wire_current is Some,
        call_ensures(FlowTask::after_write, (running, flow, written, left), result),
    ensures
        final(running)@.acked_receive_offset >= old(running)@.acked_receive_offset,
        written > 0 && written == left ==> {
            let frame = old(running)@.wire_current->0;
            &&& result == Ok::<Option<u64>, FlowTaskError>(frame.acked_offset)
            &&& frame.acked_offset matches Some(acked) ==> final(running)@.acked_receive_offset >= acked
            &&& frame.acked_offset is None
                ==> final(running)@.acked_receive_offset == old(running)@.acked_receive_offset
            &&& frame.flushed_offset is None ==> final(flow)@ == old(flow)@
        },
        !(written > 0 && written == left) ==> final(running)@ == old(running)@ && final(flow)@ == old(flow)@,
{
}

/// The newest feedback counts: what is queued replaces what waited, and what is not given
/// leaves it.
pub proof fn law_newest_feedback_counts(
    running: &mut FlowTask,
    ack: Option<(u64, Vec<(u64, u64)>)>,
    credit: Option<u64>,
)
    requires
        call_ensures(FlowTask::queue_feedback, (running, ack, credit), ()),
    ensures
        ack matches Some((contiguous, ranges)) ==> final(running)@.pending_ack == Some((contiguous, ranges@)),
        ack is None ==> final(running)@.pending_ack == old(running)@.pending_ack,
        credit is Some ==> final(running)@.pending_credit == credit,
        credit is None ==> final(running)@.pending_credit == old(running)@.pending_credit,
        final(running)@.wire_queue == old(running)@.wire_queue,
{
}

/// An acknowledgement is due when sixteen records wait for one, or when any waits and the time
/// is up; with none waiting it is never due.
pub proof fn law_acknowledgement_is_due(pending: u32, timer_fired: bool, due: bool)
    requires
        call_ensures(task::ack_due, (pending, timer_fired), due),
    ensures
        pending >= 16 ==> due,
        0 < pending < 16 ==> (due <==> timer_fired),
        pending == 0 ==> !due,
{
}

// ---------------------------------------------------------------------------
// Sending again
// ---------------------------------------------------------------------------

/// Nothing is sent again while no timer runs or before it fires; when it fires with nothing
/// left to acknowledge it is switched off.
pub proof fn law_replay_waits_for_its_timer(
    running: &mut FlowTask,
    facts: BackendFacts,
    fired: bool,
    kept_bytes: usize,
    action: ReplayAction,
)
    requires
        call_ensures(FlowTask::begin_replay, (running, facts, fired, kept_bytes), action),
    ensures
        !old(running)@.replay_timer || !fired ==> action is Idle
            && final(running)@.replay_timer == old(running)@.replay_timer,
        old(running)@.replay_timer && fired && kept_bytes == 0 ==> action is Progress && !final(running)@.replay_timer,
        old(running)@.replay_timer && fired && kept_bytes > 0 ==> {
            let datagrams = old(running)@.datagram_enabled && facts.datagram_enabled;
            &&& final(running)@.replay_timer
            &&& action is AskRepairBudget <==> old(running)@.replay_stage == ReplayStage::Repair && datagrams
            &&& action is SendSource <==> old(running)@.replay_stage == ReplayStage::SourceReplay && datagrams
            &&& action is SendStream <==> (old(running)@.replay_stage == ReplayStage::ReliableFallback || !datagrams)
                && old(running)@.wire_current is None && old(running)@.wire_queue.len() == 0
        },
        final(running)@.datagram_enabled <==> old(running)@.datagram_enabled && facts.datagram_enabled,
{
}

/// Lost bytes are asked for in stages: first repairs, then the datagrams again, then the
/// stream. A stage that has nothing more to send hands on to the next, and the timer starts
/// anew.
pub proof fn law_replay_goes_from_stage_to_stage(
    repairing: &mut FlowTask,
    budget: usize,
    budgeted: ReplayAction,
    repaired: &mut FlowTask,
    count: usize,
    adaptive_required: bool,
    after: Result<ReplayAction, FlowTaskError>,
    replaying: &mut FlowTask,
    sent: Option<(u64, SourceEvent)>,
    replayed: Result<ReplayAction, FlowTaskError>,
)
    requires
        call_ensures(FlowTask::after_repair_budget, (repairing, budget), budgeted),
        call_ensures(FlowTask::after_repairs, (repaired, RepairEvent::Sent(count), adaptive_required), after),
        call_ensures(FlowTask::after_source_replay, (replaying, sent), replayed),
    ensures
        budget == 0 ==> budgeted is RestartTimer && final(repairing)@.replay_stage == ReplayStage::SourceReplay,
        budget > 0 ==> budgeted == ReplayAction::SendRepairs(budget) && final(repairing)@ == old(repairing)@,
        count > 0 ==> after == Ok::<ReplayAction, FlowTaskError>(ReplayAction::RestartTimer)
            && final(repaired)@.replay_stage == ReplayStage::SourceReplay,
        sent is None ==> replayed == Ok::<ReplayAction, FlowTaskError>(ReplayAction::RestartTimer)
            && final(replaying)@.replay_stage == ReplayStage::ReliableFallback
            && final(replaying)@.replay_cursor is None,
        sent matches Some((offset, event)) ==> {
            &&& event is Sent ==> replayed == Ok::<ReplayAction, FlowTaskError>(ReplayAction::Progress)
                && final(replaying)@.replay_cursor == Some(offset)
            &&& event is Blocked ==> replayed == Ok::<ReplayAction, FlowTaskError>(ReplayAction::Idle)
                && final(replaying)@ == old(replaying)@
            &&& event is Refused || event is Lost ==> replayed == Err::<ReplayAction, FlowTaskError>(
                FlowTaskError::Datagram,
            )
        },
{
}

/// A chunk that is sent again over the stream is queued with its own bytes and offset, and the
/// next one is looked for behind it; when none is left, datagrams are given up, the timer
/// stops, and the next loss starts with repairs.
pub proof fn law_stream_replay_goes_through_every_chunk(
    running: &mut FlowTask,
    chunk: Option<Outbound>,
    result: Result<(), FlowTaskError>,
)
    requires
        call_ensures(FlowTask::after_stream_replay, (running, chunk), result),
    ensures
        chunk matches Some(given) ==> {
            let end = given.offset + storage::contents(given.bytes).len();
            &&& result is Ok <==> end <= 0xffff_ffff_ffff_ffff
            &&& result is Ok ==> {
                &&& final(running)@.replay_cursor == Some(given.offset)
                &&& final(running)@.wire_queue.drop_last() == old(running)@.wire_queue
                &&& final(running)@.wire_queue.last().content == FrameModel::StreamData(
                    given.offset,
                    storage::contents(given.bytes),
                )
                &&& final(running)@.wire_queue.last().flushed_offset matches Some(flushed) && flushed == end
            }
            &&& result is Err ==> final(running)@ == old(running)@
        },
        chunk is None ==> {
            &&& result is Ok
            &&& !final(running)@.datagram_enabled
            &&& !final(running)@.replay_timer
            &&& final(running)@.replay_stage == ReplayStage::Repair
            &&& final(running)@.replay_cursor is None
            &&& final(running)@.wire_queue == old(running)@.wire_queue
        },
{
    if chunk is Some && result is Ok {
        assert(final(running)@.wire_queue.drop_last() =~= old(running)@.wire_queue);
    }
}

/// An acknowledgement that releases bytes gives their room back, wakes a writer that waits for
/// it, and starts the stages over; when nothing is left to acknowledge the timer stops.
pub proof fn law_acknowledged_bytes_make_room(
    running: &mut FlowTask,
    flow: &mut FlowState,
    released_bytes: usize,
    released_chunks: usize,
    kept_bytes: usize,
    set_timer: bool,
)
    requires
        call_ensures(FlowTask::after_ack, (running, flow, released_bytes, released_chunks, kept_bytes), set_timer),
    ensures
        released_bytes > 0 ==> {
            &&& final(flow)@.retained_bytes + released_bytes == old(flow)@.retained_bytes
            &&& final(flow)@.retained_chunks + released_chunks == old(flow)@.retained_chunks
            &&& old(flow)@.writer_waits ==> final(flow)@.wakes.writer
            &&& final(running)@.replay_stage == ReplayStage::Repair
            &&& final(running)@.replay_cursor is None
        },
        released_bytes == 0 ==> final(flow)@ == old(flow)@,
        kept_bytes == 0 ==> !final(running)@.replay_timer && !set_timer && final(running)@.replay_stage
            == ReplayStage::Repair,
        kept_bytes > 0 && released_bytes == 0 ==> final(running)@ == old(running)@ && !set_timer,
        kept_bytes > 0 && released_bytes > 0 ==> set_timer == final(running)@.replay_timer
            && (old(running)@.datagram_enabled ==> final(running)@.replay_timer),
{
}

/// A datagram that is kept for the peer's acknowledgement starts the timer, unless it runs.
pub proof fn law_kept_datagram_starts_the_timer(
    running: &mut FlowTask,
    flow: &mut FlowState,
    end: u64,
    set_timer: bool,
)
    requires
        call_ensures(FlowTask::after_kept, (running, flow, end), set_timer),
    ensures
        final(running)@.replay_timer,
        set_timer <==> !old(running)@.replay_timer,
        (old(flow)@.flush_target matches Some(target) && end >= target) && old(flow)@.outbound.len() == 0
            ==> final(flow)@.flushed_offset == end && (old(flow)@.writer_waits ==> final(flow)@.wakes.writer),
        old(flow)@.outbound.len() > 0 || old(flow)@.flush_target is None ==> final(flow)@ == old(flow)@,
{
}

/// A half-close that must wait for acknowledgements of datagrams keeps the timer running, so
/// that the lost ones are sent again.
pub proof fn law_unacknowledged_end_keeps_the_timer(
    running: &mut FlowTask,
    flow: &FlowState,
    kept_bytes: usize,
    set_timer: bool,
)
    requires
        kept_bytes > 0,
        flow@.shutdown_target is Some,
        flow@.outbound.len() == 0,
        !old(running)@.fin_queued,
        call_ensures(FlowTask::queue_terminal_frames, (running, flow, kept_bytes), set_timer),
    ensures
        old(running)@.datagram_enabled ==> final(running)@.replay_timer && (set_timer <==> !old(running)@.replay_timer),
        !old(running)@.datagram_enabled ==> !set_timer && final(running)@ == old(running)@,
        !final(running)@.fin_queued,
{
}

/// The sending side is finished once, when the FIN and everything else has been written, the
/// peer's stream has come to its end, and its last acknowledgement is out; the half-close is
/// over as soon as everything is written.
pub proof fn law_sending_finishes_once(
    running: &mut FlowTask,
    flow: &mut FlowState,
    contiguous: u64,
    finish: bool,
    acknowledged: bool,
)
    requires
        call_ensures(
            FlowState::final_ack_written,
            (&*old(flow), contiguous, old(running)@.acked_receive_offset),
            acknowledged,
        ),
        call_ensures(FlowTask::finish_send_if_ready, (running, flow, contiguous), finish),
    ensures
        ({
            let written = old(running)@.fin_queued && old(running)@.wire_current is None
                && old(running)@.wire_queue.len() == 0 && old(running)@.pending_ack is None
                && old(running)@.pending_credit is None;
            &&& finish <==> written && acknowledged && !old(running)@.send_finished
            &&& finish ==> final(running)@.send_finished
            &&& written ==> final(flow)@.shutdown_done
            &&& !written ==> final(flow)@ == old(flow)@
            &&& written && !old(flow)@.shutdown_done && old(flow)@.writer_waits ==> final(flow)@.wakes.writer
        }),
{
}

/// A new task has nothing to write, no timer, and starts with repairs.
pub proof fn law_new_task_has_nothing_to_write(adaptive: bool, fresh: FlowTask, frame: Option<&WireFrame>)
    requires
        call_ensures(FlowTask::new, (adaptive,), fresh),
        call_ensures(FlowTask::current_frame, (&fresh,), frame),
    ensures
        frame is None,
        fresh@.datagram_enabled == adaptive,
        fresh@.wire_queue.len() == 0 && fresh@.pending_ack is None && fresh@.pending_credit is None,
        !fresh@.replay_timer && !fresh@.fin_queued && !fresh@.send_finished,
        fresh@.replay_stage == ReplayStage::Repair && fresh@.replay_cursor is None,
        fresh@.acked_receive_offset == 0,
{
}

/// A peer that breaks the protocol is reset; a lost or blocked connection, a reset of the
/// peer's own and exhausted memory are no breach. A reset by the peer is told as a reset, and
/// all else as an abort.
pub proof fn law_breaches_are_reset(
    flow: &mut FlowState,
    error: FlowTaskError,
    message: String,
    reset: bool,
    told: Result<(), Failure>,
)
    requires
        old(flow)@.error is None,
        call_ensures(turn::fail_task, (flow, error, message), reset),
        call_ensures(FlowState::check, (&*final(flow),), told),
    ensures
        reset <==> error is Codec || error is FinishedEarly || error is ControlLimit || error is UnexpectedControl || (
        error is Recovery && error != FlowTaskError::Recovery(RecoveryError::Capacity)),
        told matches Err(failure) && failure.message == message && (failure.kind == FailureKind::ConnectionReset
            <==> error is PeerReset) && (failure.kind == FailureKind::ConnectionAborted <==> !(error is PeerReset)),
        old(flow)@.reader_waits ==> final(flow)@.wakes.reader,
        old(flow)@.writer_waits ==> final(flow)@.wakes.writer,
{
}

// ---------------------------------------------------------------------------
// Receiving
// ---------------------------------------------------------------------------

/// Frames of the peer are held to what was agreed: data and the end of the stream to the
/// credit that was given, a payload to the largest one, and a credit to what was granted
/// before; a frame that belongs to the opening is out of place.
pub proof fn law_frames_of_the_peer_are_held_to_the_limits(
    flow: &mut FlowState,
    frame: PeerFrame,
    max_stream_payload: usize,
    result: Result<FrameAction, FlowTaskError>,
)
    requires
        call_ensures(turn::apply_control, (flow, frame, max_stream_payload), result),
    ensures
        match frame {
            PeerFrame::Ack => result == Ok::<FrameAction, FlowTaskError>(FrameAction::Acknowledge),
            PeerFrame::MaxOffset(maximum) => if maximum >= old(flow)@.peer_max_offset {
                result == Ok::<FrameAction, FlowTaskError>(FrameAction::Done) && final(flow)@.peer_max_offset == maximum
                    && (old(flow)@.task_waits ==> final(flow)@.wakes.task)
            } else {
                result == Err::<FrameAction, FlowTaskError>(FlowTaskError::Recovery(RecoveryError::InvalidRange))
            },
            PeerFrame::Fin(offset) => if offset <= old(flow)@.max_receive_offset {
                result == Ok::<FrameAction, FlowTaskError>(FrameAction::StoreEnd(offset))
            } else {
                result == Err::<FrameAction, FlowTaskError>(FlowTaskError::Recovery(RecoveryError::FlowControl))
            },
            PeerFrame::StreamData { offset, length, fin } => {
                &&& result is Ok <==> length <= max_stream_payload && offset + length <= old(flow)@.max_receive_offset
                &&& result matches Ok(action) ==> (action matches FrameAction::StoreBytes { end, fin: last } && end
                    == offset + length && last == fin)
                &&& length > max_stream_payload ==> result == Err::<FrameAction, FlowTaskError>(FlowTaskError::Codec)
            },
            PeerFrame::Opening => result == Err::<FrameAction, FlowTaskError>(FlowTaskError::UnexpectedControl),
        },
        result is Err ==> final(flow)@ == old(flow)@,
        !(frame is MaxOffset) ==> final(flow)@ == old(flow)@,
{
}

/// Bytes that are read wait behind those that were not decoded yet, and decoding takes them
/// from the front: what is read and then taken leaves the rest in order.
pub proof fn law_control_bytes_keep_their_order(
    reading: &mut ControlInput,
    bytes: &[u8],
    has_end: bool,
    result: Result<bool, FlowTaskError>,
    decoding: &mut ControlInput,
    earlier: usize,
    consumed: usize,
    step: Result<ReceiveStep, FlowTaskError>,
)
    requires
        call_ensures(ControlInput::after_read, (reading, ReadEvent::Read(bytes), has_end), result),
        old(decoding)@ == final(reading)@,
        consumed <= old(decoding)@.held.len(),
        call_ensures(ControlInput::after_decode, (decoding, earlier, DecodeEvent::Applied(consumed)), step),
    ensures
        final(decoding)@.held == (old(reading)@.held + bytes@).skip(consumed as int),
        result is Err <==> bytes@.len() == 0 && !has_end,
        result matches Ok(more) ==> more == (bytes@.len() > 0),
        result matches Err(error) ==> error == FlowTaskError::FinishedEarly,
        step is Ok,
        step == Ok::<ReceiveStep, FlowTaskError>(ReceiveStep::Enough) <==> earlier + 1 == 128,
{
}

/// A frame that is cut off waits for more bytes as long as there is room for them, and is an
/// error when there is none; a malformed one is an error at once.
pub proof fn law_cut_frame_waits_for_room(
    input: &mut ControlInput,
    earlier: usize,
    event: DecodeEvent,
    step: Result<ReceiveStep, FlowTaskError>,
)
    requires
        event is Truncated || event is Malformed,
        old(input)@.limit <= usize::MAX,
        call_ensures(ControlInput::after_decode, (input, earlier, event), step),
    ensures
        event is Malformed ==> step == Err::<ReceiveStep, FlowTaskError>(FlowTaskError::Codec),
        event is Truncated && old(input)@.held.len() >= old(input)@.limit ==> step == Err::<
            ReceiveStep,
            FlowTaskError,
        >(FlowTaskError::ControlLimit),
        event is Truncated && old(input)@.held.len() < old(input)@.limit ==> (step matches Ok(
            ReceiveStep::Read(count),
        ) && 0 < count <= 4096 && old(input)@.held.len() + count <= old(input)@.limit && (count == 4096
            || old(input)@.held.len() + count == old(input)@.limit || count == old(input)@.limit)),
        final(input)@ == old(input)@,
{
}

/// A reset and a failure of the stream are told as such; bytes that have not come yet are
/// waited for.
pub proof fn law_stream_events_are_told_apart(
    input: &mut ControlInput,
    event: ReadEvent,
    has_end: bool,
    result: Result<bool, FlowTaskError>,
)
    requires
        !(event is Read),
        call_ensures(ControlInput::after_read, (input, event, has_end), result),
    ensures
        event matches ReadEvent::Reset(code) ==> result == Err::<bool, FlowTaskError>(FlowTaskError::PeerReset(code)),
        event is Failed ==> result == Err::<bool, FlowTaskError>(FlowTaskError::Read),
        event is Pending ==> result == Ok::<bool, FlowTaskError>(false),
        final(input)@.held == old(input)@.held,
{
    assert(old(input)@.held + Seq::<u8>::empty() =~= old(input)@.held);
}

/// The room for control bytes holds the longest data frame and the longest acknowledgement:
/// sixteen bytes beside the payload, and sixteen for each range beside sixteen.
pub proof fn law_input_holds_the_longest_frames(
    max_stream_payload: usize,
    max_ack_ranges: usize,
    limit: usize,
    input: ControlInput,
)
    requires
        call_ensures(control::control_input_limit, (max_stream_payload, max_ack_ranges), limit),
        call_ensures(ControlInput::new, (max_stream_payload, max_ack_ranges), input),
    ensures
        limit == usize::MAX || limit >= max_stream_payload + 16 && limit
            >= max_ack_ranges * 16 + 16,
        limit == max_stream_payload + 16 || limit == max_ack_ranges * 16 + 16 || limit == usize::MAX,
        max_stream_payload + 16 <= usize::MAX && max_ack_ranges * 16 + 16 <= usize::MAX ==> limit >= max_stream_payload
            + 16 && limit >= max_ack_ranges * 16 + 16,
        input@.limit == limit,
        input@.held.len() == 0,
{
}

/// A task begins each poll with the reset that was asked for, once; without one it stops where
/// the handle is gone, and runs otherwise.
pub proof fn law_poll_begins_with_a_pending_reset(
    first: &mut FlowState,
    start: TaskStart,
    second: &mut FlowState,
    start_then: TaskStart,
)
    requires
        call_ensures(turn::start_poll, (first,), start),
        old(second)@ == final(first)@,
        call_ensures(turn::start_poll, (second,), start_then),
    ensures
        old(first)@.reset matches Some(code) ==> start == TaskStart::Reset(code),
        old(first)@.reset is None ==> (start is Stop <==> old(first)@.handle_dropped) && !(start is Reset),
        !(start_then is Reset),
        start_then is Stop <==> old(first)@.handle_dropped,
        final(first)@.task_waits,
{
}

// ---------------------------------------------------------------------------
// Lengths of control frames
// ---------------------------------------------------------------------------

/// The first byte behind the kind of a frame says how long its length is: one, two, four or
/// eight bytes, by its two highest bits.
pub proof fn law_two_bits_tell_the_length_of_a_length(second: u8, length: usize)
    requires
        call_ensures(control::control_header_length, (second,), length),
    ensures
        second / 64 == 0 ==> length == 2,
        second / 64 == 1 ==> length == 3,
        second / 64 == 2 ==> length == 5,
        second / 64 == 3 ==> length == 9,
{
}

/// A frame whose length is written in one or two bytes is as long as its header and that
/// length, where the limit allows it, and is refused otherwise.
pub proof fn law_short_frame_length_is_read(header: &[u8], max_frame_bytes: usize, total: Option<usize>)
    requires
        2 <= header@.len() <= 3,
        header@.len() == 2 ==> header@[1] / 64 == 0,
        header@.len() == 3 ==> header@[1] / 64 == 1,
        call_ensures(control::control_frame_length, (header, max_frame_bytes), total),
    ensures
        ({
            let payload: int = if header@.len() == 2 {
                header@[1] as int
            } else {
                (header@[1] - 64) * 256 + header@[2]
            };
            if header@.len() + payload <= max_frame_bytes {
                total matches Some(length) && length == header@.len() + payload
            } else {
                total is None
            }
        }),
{
    let rest = header@.skip(1);
    reveal_with_fuel(control::number_value, 3);
    if header@.len() == 3 {
        assert(rest.drop_last()[0] == header@[1]);
        assert(rest.last() == header@[2]);
    }
}

/// The same of the longer forms: each further byte of the length is the next lower one.
pub proof fn law_longer_lengths_are_big_endian(bytes: Seq<u8>, more: u8)
    requires
        bytes.len() > 0,
    ensures
        control::number_value(bytes.push(more)) == control::number_value(bytes) * 256 + more,
        bytes.len() == 1 ==> control::number_value(bytes) == bytes[0] % 64,
{
    assert(bytes.push(more).drop_last() =~= bytes);
}

/// Early data may be sent with the opening where it is allowed, is not empty, and fits the
/// buffer of a flow; the frame that opens a flow may be longer than that buffer by 512 bytes.
pub proof fn law_early_data_fits_the_flow(
    authorized: bool,
    initial_length: usize,
    flow_buffer_bytes: usize,
    result: Result<(), crate::flow::admission::FlowError>,
    limit: Option<usize>,
)
    requires
        call_ensures(
            crate::flow::admission::check_early_open,
            (authorized, initial_length, flow_buffer_bytes),
            result,
        ),
        call_ensures(control::early_open_frame_limit, (flow_buffer_bytes,), limit),
    ensures
        result is Ok <==> authorized && 0 < initial_length && initial_length <= flow_buffer_bytes,
        flow_buffer_bytes + 512 <= usize::MAX ==> (limit matches Some(bytes) && bytes == flow_buffer_bytes + 512),
        flow_buffer_bytes + 512 > usize::MAX ==> limit is None,
{
}

// ---------------------------------------------------------------------------
// The handle
// ---------------------------------------------------------------------------

/// A half-close of the handle that is under way or over has handed over all that was gathered:
/// nothing is left in the buffer, and the end of the flow lies behind those bytes.
pub proof fn law_half_close_takes_the_gathered_bytes_along(handle: &mut QuicpFlow, outcome: Completion)
    requires
        old(handle)@.state.shutdown_target is None,
        call_ensures(QuicpFlow::poll_shutdown, (handle,), outcome),
        final(handle)@.state.shutdown_target is Some,
    ensures
        final(handle)@.buffer.len() == 0,
        final(handle)@.state.shutdown_target matches Some(end)
            && end == old(handle)@.state.next_send_offset + old(handle)@.buffer.len(),
        old(handle)@.buffer.len() > 0 ==> final(handle)@.state.outbound == old(handle)@.state.outbound.push(
            (old(handle)@.state.next_send_offset, old(handle)@.buffer),
        ),
{
}

/// A flush of the handle that is over has handed over all that was gathered, and the flow has
/// passed on all that was ever written.
pub proof fn law_flush_hands_over_the_gathered_bytes(handle: &mut QuicpFlow, outcome: Completion)
    requires
        outcome is Done,
        call_ensures(QuicpFlow::poll_flush, (handle,), outcome),
    ensures
        final(handle)@.buffer.len() == 0,
        final(handle)@.state.next_send_offset == old(handle)@.state.next_send_offset + old(handle)@.buffer.len(),
        final(handle)@.state.flushed_offset >= final(handle)@.state.next_send_offset,
{
}

/// A chunk that fits a payload and the credit of the peer is sent whole, though the flow may keep
/// no further chunk.
pub proof fn law_whole_chunk_needs_no_further_room(
    running: &mut FlowTask,
    flow: &mut FlowState,
    facts: BackendFacts,
    step: OutboundStep,
)
    requires
        old(flow)@.valid(),
        old(flow)@.outbound.len() > 0,
        old(flow)@.outbound[0].1.len() > 0,
        old(flow)@.outbound[0].0 + old(flow)@.outbound[0].1.len() <= old(flow)@.peer_max_offset,
        old(flow)@.outbound[0].1.len() <= facts.max_stream_payload,
        old(flow)@.outbound[0].1.len() <= facts.max_source_payload || facts.max_source_payload == 0,
        call_ensures(
            FlowTask::prepare_outbound,
            (running, flow, facts),
            Ok::<OutboundStep, FlowTaskError>(step),
        ),
    ensures
        sent_by(step) matches Some((chunk, end)) && state::chunk_model(chunk) == old(flow)@.outbound[0],
        final(flow)@.outbound == old(flow)@.outbound.skip(1),
        final(flow)@.retained_chunks == old(flow)@.retained_chunks,
{
    let bytes = old(flow)@.outbound[0].1;
    assert(bytes.take(bytes.len() as int) =~= bytes);
}

/// Sending fails only where datagrams are required and the backend takes none.
pub proof fn law_sending_fails_only_without_required_datagrams(
    running: &mut FlowTask,
    flow: &mut FlowState,
    facts: BackendFacts,
    result: Result<OutboundStep, FlowTaskError>,
)
    requires
        call_ensures(FlowTask::prepare_outbound, (running, flow, facts), result),
    ensures
        result is Err <==> old(flow)@.outbound.len() > 0
            && old(flow)@.outbound[0].0 < old(flow)@.peer_max_offset && old(running)@.datagram_enabled
            && facts.datagram_enabled && facts.max_source_payload == 0 && facts.adaptive_required,
        result matches Err(error) ==> error == FlowTaskError::Datagram,
{
}

/// Where there is nothing to repair, the datagrams themselves are sent again; where the backend
/// will not take repairs the stream takes over, unless datagrams are required.
pub proof fn law_replay_without_repairs_goes_on(
    sent: &mut FlowTask,
    adaptive_required: bool,
    nothing: Result<ReplayAction, FlowTaskError>,
    refused: &mut FlowTask,
    turned_away: Result<ReplayAction, FlowTaskError>,
    lost: &mut FlowTask,
    gone: Result<ReplayAction, FlowTaskError>,
)
    requires
        call_ensures(FlowTask::after_repairs, (sent, RepairEvent::Sent(0), adaptive_required), nothing),
        call_ensures(FlowTask::after_repairs, (refused, RepairEvent::Refused, adaptive_required), turned_away),
        call_ensures(FlowTask::after_repairs, (lost, RepairEvent::Lost, adaptive_required), gone),
    ensures
        final(sent)@ == old(sent)@,
        old(sent)@.datagram_enabled && !(old(sent)@.replay_stage is ReliableFallback) ==> nothing == Ok::<
            ReplayAction,
            FlowTaskError,
        >(ReplayAction::SendSource(old(sent)@.replay_cursor)),
        !old(sent)@.datagram_enabled && old(sent)@.wire_current is None && old(sent)@.wire_queue.len() == 0 ==> nothing
            == Ok::<ReplayAction, FlowTaskError>(ReplayAction::SendStream(old(sent)@.replay_cursor)),
        adaptive_required ==> turned_away == Err::<ReplayAction, FlowTaskError>(FlowTaskError::Datagram),
        !adaptive_required ==> !final(refused)@.datagram_enabled && (old(refused)@.wire_current is None
            && old(refused)@.wire_queue.len() == 0 ==> turned_away == Ok::<ReplayAction, FlowTaskError>(
            ReplayAction::SendStream(old(refused)@.replay_cursor),
        )),
        gone == Err::<ReplayAction, FlowTaskError>(FlowTaskError::Datagram),
{
}

/// Control bytes are read as far as there is room for them, and no more at once than the scratch
/// holds; the scratch is as large as the room, within one byte and 4096.
pub proof fn law_control_reads_stay_within_their_room(
    max_input: usize,
    held: usize,
    scratch: usize,
    capacity: Option<usize>,
    length: usize,
)
    requires
        call_ensures(control::read_capacity, (max_input, held, scratch), capacity),
        call_ensures(control::scratch_length, (max_input,), length),
    ensures
        capacity is None <==> held >= max_input,
        capacity matches Some(count) ==> count <= scratch && held + count <= max_input && (count == scratch
            || held + count
            == max_input),
        1 <= length <= 4096,
        1 <= max_input <= 4096 ==> length == max_input,
        max_input > 4096 ==> length == 4096,
{
}

/// A turn is followed by another as long as something was done, up to 32 of them; then the task
/// yields. Where nothing was done it waits.
pub proof fn law_turns_are_bounded(turn_number: usize, made_progress: bool, step: task::TurnStep, first: turn::Turn)
    requires
        turn_number < 32,
        call_ensures(task::after_turn, (turn_number, made_progress), step),
        call_ensures(turn::Turn::first, (), first),
    ensures
        step is Wait <==> !made_progress,
        step is Yield <==> made_progress && turn_number == 31,
        step is Again <==> made_progress && turn_number < 31,
        first.turn == 0 && first.phase is Receive && !first.made_progress,
{
}

} // verus!
