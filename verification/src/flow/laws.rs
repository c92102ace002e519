//! What holds of a flow's state, whatever its handle and its control task do.
use crate::flow::state;
use crate::flow::state::{Failure, FailureKind, FlowModel};
use crate::flow::task;
use crate::flow::task::{
    BackendFacts, FlowTaskError, FrameModel, OutboundStep, RepairEvent, ReplayAction, ReplayStage, TaskModel,
};
use crate::flow::write::{Handover, WriteModel, WriteOutcome};
use vstd::prelude::*;

verus! {

/// The bytes of some chunks, one behind the other.
pub open spec fn stream_of(chunks: Seq<(u64, Seq<u8>)>) -> Seq<u8>
    decreases chunks.len(),
{
    if chunks.len() == 0 {
        Seq::empty()
    } else {
        stream_of(chunks.drop_last()) + chunks.last().1
    }
}

proof fn lemma_stream_front(chunks: Seq<(u64, Seq<u8>)>)
    requires
        chunks.len() > 0,
    ensures
        stream_of(chunks) == chunks[0].1 + stream_of(chunks.skip(1)),
    decreases chunks.len(),
{
    if chunks.len() == 1 {
        assert(chunks.drop_last() =~= Seq::empty());
        assert(chunks.skip(1) =~= Seq::empty());
        assert(stream_of(chunks) =~= chunks[0].1 + stream_of(chunks.skip(1)));
    } else {
        let front = chunks.drop_last();
        lemma_stream_front(front);
        assert(chunks.skip(1).drop_last() =~= front.skip(1));
        assert(chunks.skip(1).last() == chunks.last());
        assert(stream_of(chunks) =~= chunks[0].1 + stream_of(chunks.skip(1)));
    }
}

/// A reset is final: what waited to be sent is gone and no longer counted, and every later
/// write fails as aborted.
pub proof fn law_reset_is_terminal(before: FlowModel, code: u64, after: FlowModel)
    requires
        before.valid(),
        state::reset_done(before, code, after),
    ensures
        after.outbound.len() == 0,
        after.retained_bytes == before.retained_bytes - state::total(before.outbound),
        after.retained_chunks == before.retained_chunks - before.outbound.len(),
        state::write_failure(after) == Some((FailureKind::ConnectionAborted, "QUICP flow was reset"@)),
        !after.reader_waits && !after.writer_waits && !after.task_waits,
        after.reset == Some(code),
{
}

/// Everything that is written waits to be sent in the order in which it was written.
pub proof fn law_enqueued_bytes_go_behind_earlier_ones(
    before: FlowModel,
    bytes: Seq<u8>,
    offset: u64,
    after: FlowModel,
)
    requires
        state::enqueued(before, bytes, Ok::<Option<u64>, Failure>(Some(offset)), after),
    ensures
        stream_of(after.outbound) == stream_of(before.outbound) + bytes,
        offset == after.next_send_offset,
        after.next_send_offset == before.next_send_offset + bytes.len(),
{
    assert(before.outbound.push((before.next_send_offset, bytes)).drop_last() =~= before.outbound);
}

/// Looking for bytes to send loses none and keeps their order: what goes out and what still
/// waits is what waited before. What goes out is within what the peer lets this end send,
/// and within what one datagram or frame takes.
pub proof fn law_sending_loses_nothing(
    before: TaskModel,
    flow: FlowModel,
    facts: BackendFacts,
    step: OutboundStep,
    after: TaskModel,
    flow_after: FlowModel,
)
    requires
        flow.valid(),
        task::outbound_prepared(
            before,
            flow,
            facts,
            Ok::<OutboundStep, FlowTaskError>(step),
            after,
            flow_after,
        ),
    ensures
        match step {
            OutboundStep::Idle => stream_of(flow_after.outbound) == stream_of(flow.outbound),
            OutboundStep::SendSource { chunk, end } => {
                let (offset, bytes) = state::chunk_model(chunk);
                &&& stream_of(flow.outbound) == bytes + stream_of(flow_after.outbound)
                &&& end == offset + bytes.len()
                &&& end <= flow.peer_max_offset
                &&& bytes.len() <= facts.max_source_payload
            },
            OutboundStep::SendStream { chunk, end } => {
                let (offset, bytes) = state::chunk_model(chunk);
                &&& stream_of(flow.outbound) == bytes + stream_of(flow_after.outbound)
                &&& end == offset + bytes.len()
                &&& end <= flow.peer_max_offset
                &&& bytes.len() <= facts.max_stream_payload
            },
        },
{
    if !(step is Idle) {
        let (offset, bytes) = flow.outbound[0];
        lemma_stream_front(flow.outbound);
        let datagrams = step is SendSource;
        let length = task::send_length(datagrams, facts, flow.peer_max_offset - offset, bytes.len() as int);
        if bytes.len() > length {
            let rest = seq![((offset + length) as u64, bytes.skip(length))] + flow.outbound.skip(1);
            lemma_stream_front(rest);
            assert(rest.skip(1) =~= flow.outbound.skip(1));
            assert(bytes.take(length) + (bytes.skip(length) + stream_of(flow.outbound.skip(1))) =~= bytes + stream_of(
                flow.outbound.skip(1),
            ));
        } else {
            assert(bytes.take(length) =~= bytes);
        }
    }
}

/// What a writer's bytes are, wherever they are: those that wait to be sent, and behind
/// them those in the buffer.
pub open spec fn pending_stream(model: WriteModel) -> Seq<u8> {
    stream_of(model.state.outbound) + model.buffer
}

proof fn lemma_handover_keeps_stream(start: WriteModel, handover: Handover, end: WriteModel)
    requires
        crate::flow::write::handed_over(start.state, start.buffer, handover, end.state, end.buffer),
    ensures
        pending_stream(end) == pending_stream(start),
{
    if start.buffer.len() > 0 {
        if let Handover::Done = handover {
            let offset = choose|offset: u64| #[trigger]
                state::enqueued(start.state, start.buffer, Ok(Some(offset)), end.state);
            law_enqueued_bytes_go_behind_earlier_ones(start.state, start.buffer, offset, end.state);
            assert(end.buffer =~= Seq::empty());
            assert(pending_stream(end) =~= pending_stream(start));
        }
    }
}

proof fn lemma_fill_keeps_stream(
    start: WriteModel,
    nodelay: bool,
    limit: int,
    given: Seq<u8>,
    outcome: WriteOutcome,
    end: WriteModel,
)
    requires
        0 <= start.buffer.len() <= limit <= usize::MAX,
        crate::flow::write::filled(start, nodelay, limit, given, outcome, end),
    ensures
        match outcome {
            WriteOutcome::Accepted(count) => count <= given.len() && pending_stream(end) == pending_stream(start)
                + given.take(count as int),
            WriteOutcome::Pending => pending_stream(end) == pending_stream(start),
            WriteOutcome::Failed(_) => true,
        },
{
    let length = crate::flow::write::fitting(start.buffer, limit, given.len() as int);
    let buffered = start.buffer + given.take(length);
    if !nodelay && buffered.len() == limit {
        let (asked, room) = choose|asked: FlowModel, room: Result<bool, Failure>|
            {
                &&& #[trigger] state::room_asked(start.state, limit, room, asked)
                &&& match room {
                    Err(failure) => outcome == WriteOutcome::Failed(failure) && end == (WriteModel {
                        state: asked,
                        buffer: start.buffer,
                    }),
                    Ok(ready) => if ready {
                        crate::flow::write::handed_on(WriteModel { state: asked, buffer: buffered }, length, outcome, end)
                    } else {
                        outcome is Pending && end == (WriteModel { state: asked, buffer: start.buffer })
                    },
                }
            };
        if room matches Ok(ready) && ready {
            lemma_hand_on_keeps_stream(WriteModel { state: asked, buffer: buffered }, length, outcome, end);
        }
    } else if nodelay || buffered.len() == limit {
        lemma_hand_on_keeps_stream(WriteModel { state: start.state, buffer: buffered }, length, outcome, end);
    }
    assert(stream_of(start.state.outbound) + buffered =~= pending_stream(start) + given.take(length));
}

proof fn lemma_hand_on_keeps_stream(start: WriteModel, length: int, outcome: WriteOutcome, end: WriteModel)
    requires
        crate::flow::write::handed_on(start, length, outcome, end),
        0 <= length <= usize::MAX,
    ensures
        pending_stream(end) == pending_stream(start),
        outcome matches WriteOutcome::Accepted(count) ==> count == length,
        !(outcome is Pending),
{
    let handover = choose|handover: Handover|
        {
            &&& #[trigger] crate::flow::write::handed_over(start.state, start.buffer, handover, end.state, end.buffer)
            &&& match handover {
                Handover::Failed(failure) => outcome == WriteOutcome::Failed(failure),
                _ => outcome == WriteOutcome::Accepted(length as usize),
            }
        };
    lemma_handover_keeps_stream(start, handover, end);
}

/// A write takes a front part of what it is given, exactly once and behind everything that
/// was written before; a write that has to wait takes nothing.
pub proof fn law_writes_neither_lose_nor_repeat_bytes(
    start: WriteModel,
    nodelay: bool,
    limit: int,
    given: Seq<u8>,
    outcome: WriteOutcome,
    end: WriteModel,
)
    requires
        start.buffer.len() <= limit <= usize::MAX,
        crate::flow::write::written(start, nodelay, limit, given, outcome, end),
    ensures
        match outcome {
            WriteOutcome::Accepted(count) => count <= given.len() && pending_stream(end) == pending_stream(start)
                + given.take(count as int),
            WriteOutcome::Pending => pending_stream(end) == pending_stream(start),
            WriteOutcome::Failed(_) => true,
        },
{
    if given.len() == 0 {
        assert(pending_stream(start) + given.take(0) =~= pending_stream(start));
    } else if crate::flow::write::drains_first(start.buffer, nodelay, limit) {
        let (handover, middle) = choose|handover: Handover, middle: WriteModel|
            {
                &&& #[trigger] crate::flow::write::handed_over(start.state, start.buffer, handover, middle.state, middle.buffer)
                &&& match handover {
                    Handover::Done => crate::flow::write::filled(middle, nodelay, limit, given, outcome, end),
                    Handover::Pending => outcome is Pending && end == middle,
                    Handover::Failed(failure) => outcome == WriteOutcome::Failed(failure) && end == middle,
                }
            };
        lemma_handover_keeps_stream(start, handover, middle);
        if handover is Done {
            lemma_fill_keeps_stream(middle, nodelay, limit, given, outcome, end);
        }
    } else {
        lemma_fill_keeps_stream(start, nodelay, limit, given, outcome, end);
    }
}

/// The peer is never told to send less than it was told before.
pub proof fn law_credit_is_never_taken_back(before: FlowModel, read: int, next_offset: u64, finished: bool)
    ensures
        state::bytes_read(before, read, next_offset, finished).0.max_receive_offset >= before.max_receive_offset,
{
}

/// The task that acknowledges is woken for the first record that waits, which starts its
/// timer, and again once many do, but not in between.
pub proof fn law_ack_task_is_woken_for_timer_and_threshold(before: FlowModel, end: u64, fin: bool)
    requires
        before.task_waits,
        before.ack_pending < u32::MAX,
    ensures
        state::record_stored(before, end, fin).task_waits <==> 0 < before.ack_pending < state::LOGICAL_ACK_THRESHOLD
            - 1,
        state::record_stored(before, end, fin).ack_pending == before.ack_pending + 1,
{
}

/// The control stream is finished only once the peer's bytes all arrived and the
/// acknowledgment of the last was written.
pub proof fn law_finish_waits_for_the_last_acknowledgment(before: FlowModel, contiguous: u64, acked: u64)
    requires
        state::acknowledged_to_the_end(before, contiguous, acked),
    ensures
        before.receive_final_offset == Some(contiguous),
        acked >= contiguous,
        before.ack_pending == 0,
{
}

/// Bytes that the peer does not acknowledge are tried harder each time the timer fires:
/// repair symbols first, then the bytes again as datagrams, and in the end the control
/// stream, which does not lose them.
pub proof fn law_lost_bytes_reach_the_control_stream(
    task: TaskModel,
    facts: BackendFacts,
    kept_bytes: int,
    count: usize,
)
    requires
        task.replay_timer,
        kept_bytes > 0,
        count > 0,
    ensures
        ({
            let seen = task::noticed(task, facts);
            let repairing = TaskModel { replay_stage: ReplayStage::Repair, ..seen };
            let replaying = TaskModel { replay_stage: ReplayStage::SourceReplay, ..seen };
            let falling = TaskModel { replay_stage: ReplayStage::ReliableFallback, ..seen };
            let quiet = seen.wire_current is None && seen.wire_queue.len() == 0;
            &&& seen.datagram_enabled ==> {
                &&& task::replay_begun(repairing, facts, true, kept_bytes).1 == ReplayAction::AskRepairBudget
                &&& task::budget_known(repairing, 0).0 == replaying
                &&& task::repairs_tried(repairing, RepairEvent::Sent(count), true) == Ok::<
                    (TaskModel, ReplayAction),
                    FlowTaskError,
                >((replaying, ReplayAction::RestartTimer))
                &&& task::replay_begun(replaying, facts, true, kept_bytes).1 == ReplayAction::SendSource(
                    seen.replay_cursor,
                )
                &&& task::source_replayed(replaying, None) == Ok::<(TaskModel, ReplayAction), FlowTaskError>(
                    (TaskModel { replay_cursor: None, ..falling }, ReplayAction::RestartTimer),
                )
            }
            &&& quiet ==> task::replay_begun(falling, facts, true, kept_bytes).1 == ReplayAction::SendStream(
                seen.replay_cursor,
            )
            &&& quiet && !seen.datagram_enabled ==> task::replay_begun(repairing, facts, true, kept_bytes).1
                == ReplayAction::SendStream(seen.replay_cursor)
        }),
{
}

/// Bytes that are written again to the control stream are the bytes that were lost, at
/// their place, behind everything that waits there already.
pub proof fn law_replayed_bytes_are_the_lost_ones(task: TaskModel, offset: u64, bytes: Seq<u8>)
    ensures
        ({
            let after = task::stream_replayed(task, Some((offset, bytes)));
            &&& after.wire_queue.drop_last() == task.wire_queue
            &&& after.wire_queue.last().content == FrameModel::StreamData(offset, bytes)
            &&& after.replay_cursor == Some(offset)
        }),
{
    let after = task::stream_replayed(task, Some((offset, bytes)));
    assert(after.wire_queue.drop_last() =~= task.wire_queue);
}

}
