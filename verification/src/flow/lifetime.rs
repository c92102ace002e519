//! What holds over several calls on the state of one flow.
use crate::config::transport::RecoveryConfig;
use crate::flow::state;
use crate::flow::state::{Failure, FailureKind, FlowModel, FlowState, FlowWakes, Outbound};
use crate::flow::task::{FlowTask, FrameModel};
use crate::recovery::RecoveryError;
use crate::storage;
use bytes::Bytes;
use vstd::prelude::*;

verus! {

// ---------------------------------------------------------------------------
// The end of what is written
// ---------------------------------------------------------------------------

/// A write that is taken, followed by the first half-close, ends the flow at the offset that
/// the write answered: the offset behind its last byte.
pub proof fn law_half_close_ends_behind_the_last_write(
    writing: &mut FlowState,
    bytes: &Bytes,
    end: u64,
    closing: &mut FlowState,
    done: bool,
)
    requires
        call_ensures(FlowState::enqueue, (writing, bytes), Ok::<Option<u64>, Failure>(Some(end))),
        old(closing)@ == final(writing)@,
        call_ensures(FlowState::request_shutdown, (closing,), Ok::<bool, Failure>(done)),
    ensures
        end == old(writing)@.next_send_offset + storage::contents(*bytes).len(),
        final(closing)@.shutdown_target == Some(end),
{
}

/// How many bytes these chunks have together.
pub open spec fn count_of(chunks: Seq<Seq<u8>>) -> int
    decreases chunks.len(),
{
    if chunks.len() == 0 {
        0
    } else {
        count_of(chunks.drop_last()) + chunks.last().len()
    }
}

/// Whether the flow took this write, at whatever offset.
pub open spec fn taken(before: FlowModel, bytes: Seq<u8>, after: FlowModel) -> bool {
    exists|end: u64| #[trigger] state::enqueued(before, bytes, Ok(Some(end)), after)
}

/// Whether these states follow one another with one write each, of these chunks. Between two
/// writes anything may happen that writes nothing and does not close the flow.
pub open spec fn writes(flows: Seq<(FlowModel, FlowModel)>, chunks: Seq<Seq<u8>>) -> bool {
    &&& flows.len() == chunks.len()
    &&& forall|index: int|
        0 <= index < chunks.len() ==> taken((#[trigger] flows[index]).0, chunks[index], flows[index].1)
    &&& forall|index: int|
        1 <= index < chunks.len()
            ==> (#[trigger] flows[index]).0.next_send_offset == flows[index - 1].1.next_send_offset
}

/// The half-close of a flow fixes its end at the offset where it began to write plus the
/// lengths of all chunks written since, whatever was sent, flushed or acknowledged meanwhile.
pub proof fn law_half_close_counts_every_byte(
    flows: Seq<(FlowModel, FlowModel)>,
    chunks: Seq<Seq<u8>>,
    start: u64,
    closing: &mut FlowState,
    done: bool,
)
    requires
        writes(flows, chunks),
        if chunks.len() == 0 {
            old(closing)@.next_send_offset == start
        } else {
            flows[0].0.next_send_offset == start && old(closing)@.next_send_offset
                == flows.last().1.next_send_offset
        },
        old(closing)@.shutdown_target is None,
        call_ensures(FlowState::request_shutdown, (closing,), Ok::<bool, Failure>(done)),
    ensures
        final(closing)@.shutdown_target matches Some(end) && end == start + count_of(chunks),
{
    if chunks.len() > 0 {
        lemma_writes_count(flows, chunks);
    }
}

proof fn lemma_writes_count(flows: Seq<(FlowModel, FlowModel)>, chunks: Seq<Seq<u8>>)
    requires
        writes(flows, chunks),
        chunks.len() > 0,
    ensures
        flows.last().1.next_send_offset == flows[0].0.next_send_offset + count_of(chunks),
    decreases chunks.len(),
{
    let last = chunks.len() - 1;
    assert(flows[last] == flows.last());
    assert(taken(flows[last].0, chunks[last], flows[last].1));
    if last == 0 {
        reveal_with_fuel(count_of, 2);
    } else {
        let earlier = flows.drop_last();
        let before = chunks.drop_last();
        assert forall|index: int| 0 <= index < before.len()
            implies taken((#[trigger] earlier[index]).0, before[index], earlier[index].1) by {
            assert(earlier[index] == flows[index]);
        }
        assert forall|index: int| 1 <= index < before.len() implies (#[trigger] earlier[index]).0.next_send_offset
            == earlier[index - 1].1.next_send_offset by {
            assert(earlier[index] == flows[index]);
            assert(earlier[index - 1] == flows[index - 1]);
        }
        lemma_writes_count(earlier, before);
        assert(flows[last].0.next_send_offset == flows[last - 1].1.next_send_offset);
    }
}

/// The end that the half-close of a flow fixed is the one that its peer is told, in exactly
/// one FIN, once all that was written has left the queue and has been acknowledged; before
/// that no FIN is queued.
pub proof fn law_fin_announces_the_half_close(
    closing: &mut FlowState,
    done: bool,
    task: &mut FlowTask,
    flow: &FlowState,
    kept_bytes: usize,
    set_timer: bool,
)
    requires
        old(closing)@.shutdown_target is None,
        call_ensures(FlowState::request_shutdown, (closing,), Ok::<bool, Failure>(done)),
        flow@.shutdown_target == final(closing)@.shutdown_target,
        !old(task)@.fin_queued,
        call_ensures(FlowTask::queue_terminal_frames, (task, flow, kept_bytes), set_timer),
    ensures
        if flow@.outbound.len() == 0 && kept_bytes == 0 {
            &&& final(task)@.fin_queued
            &&& final(task)@.wire_queue.len() == old(task)@.wire_queue.len() + 1
            &&& final(task)@.wire_queue.drop_last() == old(task)@.wire_queue
            &&& final(task)@.wire_queue.last().content == FrameModel::Fin(old(closing)@.next_send_offset)
        } else {
            !final(task)@.fin_queued && final(task)@.wire_queue == old(task)@.wire_queue
        },
{
    assert(flow@.outbound.len() == 0 && kept_bytes == 0 ==> final(task)@.wire_queue.drop_last()
        =~= old(task)@.wire_queue);
}

/// A FIN is queued once: asked again, the task queues nothing more.
pub proof fn law_fin_is_queued_once(
    task: &mut FlowTask,
    flow: &FlowState,
    kept_bytes: usize,
    set_timer: bool,
)
    requires
        old(task)@.fin_queued || flow@.shutdown_target is None,
        call_ensures(FlowTask::queue_terminal_frames, (task, flow, kept_bytes), set_timer),
    ensures
        !set_timer,
        final(task)@ == old(task)@,
{
}

/// Asking again for the half-close does not move the end.
pub proof fn law_half_close_happens_once(
    first: &mut FlowState,
    done: bool,
    second: &mut FlowState,
    done_again: bool,
)
    requires
        call_ensures(FlowState::request_shutdown, (first,), Ok::<bool, Failure>(done)),
        old(second)@.shutdown_target == final(first)@.shutdown_target,
        call_ensures(FlowState::request_shutdown, (second,), Ok::<bool, Failure>(done_again)),
    ensures
        final(first)@.shutdown_target is Some,
        final(second)@.shutdown_target == final(first)@.shutdown_target,
{
}

/// Behind its half-close a flow takes no more bytes: a write fails as on a broken pipe, and
/// changes nothing.
pub proof fn law_nothing_is_written_behind_the_end(
    closing: &mut FlowState,
    done: bool,
    writing: &mut FlowState,
    bytes: &Bytes,
    result: Result<Option<u64>, Failure>,
)
    requires
        call_ensures(FlowState::request_shutdown, (closing,), Ok::<bool, Failure>(done)),
        old(writing)@ == final(closing)@,
        call_ensures(FlowState::enqueue, (writing, bytes), result),
    ensures
        result matches Err(failure) && failure.kind == FailureKind::BrokenPipe,
        final(writing)@ == old(writing)@,
{
}

/// A half-close is over when the FIN has been written, and not before: until it is marked,
/// asking answers that it goes on and leaves the writer waiting, and marking it wakes the
/// writer, who then finds it over.
pub proof fn law_half_close_is_over_when_marked(
    closing: &mut FlowState,
    done: bool,
    marking: &mut FlowState,
    asking: &mut FlowState,
    done_then: bool,
)
    requires
        !old(closing)@.shutdown_done,
        call_ensures(FlowState::request_shutdown, (closing,), Ok::<bool, Failure>(done)),
        old(marking)@ == final(closing)@,
        call_ensures(FlowState::mark_shutdown_done, (marking,), ()),
        old(asking)@ == final(marking)@,
        call_ensures(FlowState::request_shutdown, (asking,), Ok::<bool, Failure>(done_then)),
    ensures
        !done,
        final(closing)@.writer_waits,
        old(closing)@.task_waits ==> final(closing)@.wakes.task,
        final(marking)@.wakes.writer,
        !final(marking)@.writer_waits,
        done_then,
{
}

// ---------------------------------------------------------------------------
// Flushing
// ---------------------------------------------------------------------------

/// A flush that follows a write of at least one byte is not over, and leaves the writer
/// waiting. When the offset behind the written bytes reaches the stream the writer is woken,
/// and the flush is over; a shorter offset wakes the writer, who waits on.
pub proof fn law_flush_waits_for_the_last_byte(
    writing: &mut FlowState,
    bytes: &Bytes,
    end: u64,
    asking: &mut FlowState,
    done: bool,
    sending: &mut FlowState,
    sent: u64,
    again: &mut FlowState,
    done_then: bool,
)
    requires
        old(writing)@.valid(),
        storage::contents(*bytes).len() > 0,
        call_ensures(FlowState::enqueue, (writing, bytes), Ok::<Option<u64>, Failure>(Some(end))),
        old(asking)@ == final(writing)@,
        call_ensures(FlowState::request_flush, (asking,), Ok::<bool, Failure>(done)),
        old(sending)@ == final(asking)@,
        call_ensures(FlowState::written_to_stream, (sending, sent), ()),
        old(again)@ == final(sending)@,
        call_ensures(FlowState::request_flush, (again,), Ok::<bool, Failure>(done_then)),
    ensures
        !done,
        final(asking)@.writer_waits,
        old(writing)@.task_waits ==> final(asking)@.wakes.task,
        final(sending)@.wakes.writer && !final(sending)@.writer_waits,
        done_then == (sent >= end),
{
}

/// The same where the bytes go as datagrams: once the last of them has left the queue and
/// been sent, a flush that waits is over, and its writer is woken.
pub proof fn law_flush_ends_with_the_last_datagram(
    asking: &mut FlowState,
    done: bool,
    sending: &mut FlowState,
    end: u64,
    again: &mut FlowState,
    done_then: bool,
)
    requires
        call_ensures(FlowState::request_flush, (asking,), Ok::<bool, Failure>(done)),
        old(asking)@.flush_target matches Some(earlier) ==> earlier <= old(asking)@.next_send_offset,
        old(sending)@ == (FlowModel { outbound: old(sending)@.outbound, ..final(asking)@ }),
        end == old(sending)@.next_send_offset,
        call_ensures(FlowState::sent_directly, (sending, end), ()),
        old(again)@ == final(sending)@,
        call_ensures(FlowState::request_flush, (again,), Ok::<bool, Failure>(done_then)),
    ensures
        final(asking)@.flush_target == Some(old(asking)@.next_send_offset),
        old(sending)@.outbound.len() == 0 ==> done_then && (final(asking)@.writer_waits
            ==> final(sending)@.wakes.writer),
        old(sending)@.outbound.len() > 0 ==> done_then == done,
{
}

// ---------------------------------------------------------------------------
// Room for what is written
// ---------------------------------------------------------------------------

/// A new flow takes a first write of any length up to its replay buffer, as long as it may
/// keep a chunk at all, and answers the offset behind it; a longer one waits.
pub proof fn law_new_flow_takes_its_replay_buffer(
    recovery: RecoveryConfig,
    replay_chunk_limit: usize,
    initial_send_offset: u64,
    flow: FlowState,
    writing: &mut FlowState,
    bytes: &Bytes,
    result: Result<Option<u64>, Failure>,
)
    requires
        call_ensures(FlowState::new, (recovery, replay_chunk_limit, initial_send_offset), flow),
        old(writing)@ == flow@,
        initial_send_offset + storage::contents(*bytes).len() <= u64::MAX,
        call_ensures(FlowState::enqueue, (writing, bytes), result),
    ensures
        if replay_chunk_limit > 0 && storage::contents(*bytes).len() <= recovery.replay_buffer_bytes {
            result matches Ok(Some(end)) && end == initial_send_offset + storage::contents(*bytes).len()
        } else {
            result matches Ok(None) && final(writing)@.writer_waits && final(writing)@.outbound.len() == 0
        },
{
}

/// What is written is charged, byte for byte and chunk for chunk, until it is released: the
/// charge after a write and the release of just that write is the charge before.
pub proof fn law_release_undoes_the_charge_of_a_write(
    writing: &mut FlowState,
    bytes: &Bytes,
    end: u64,
    freeing: &mut FlowState,
    before: (usize, usize),
    between: (usize, usize),
    after: (usize, usize),
)
    requires
        call_ensures(FlowState::retained, (&*old(writing),), before),
        call_ensures(FlowState::enqueue, (writing, bytes), Ok::<Option<u64>, Failure>(Some(end))),
        call_ensures(FlowState::retained, (&*old(freeing),), between),
        old(freeing)@.retained_bytes == final(writing)@.retained_bytes,
        old(freeing)@.retained_chunks == final(writing)@.retained_chunks,
        call_ensures(FlowState::release, (freeing, storage::contents(*bytes).len() as usize, 1usize), ()),
        call_ensures(FlowState::retained, (&*final(freeing),), after),
    ensures
        between.0 == before.0 + storage::contents(*bytes).len(),
        between.1 == before.1 + 1,
        after == before,
        old(freeing)@.writer_waits ==> final(freeing)@.wakes.writer,
{
}

/// A flow that says it has room takes a write of that length, unless its offsets run out;
/// one that says it has none leaves the writer waiting and would not take it.
pub proof fn law_room_told_is_room_given(
    asking: &mut FlowState,
    length: usize,
    ready: bool,
    writing: &mut FlowState,
    bytes: &Bytes,
    result: Result<Option<u64>, Failure>,
)
    requires
        call_ensures(FlowState::can_enqueue, (asking, length), Ok::<bool, Failure>(ready)),
        old(writing)@ == final(asking)@,
        storage::contents(*bytes).len() == length,
        old(writing)@.next_send_offset + length <= u64::MAX,
        call_ensures(FlowState::enqueue, (writing, bytes), result),
    ensures
        ready == (result matches Ok(Some(_))),
        !ready ==> (result matches Ok(None)) && final(asking)@.writer_waits,
        ready ==> final(asking)@ == old(asking)@,
{
}

/// Retained bytes stay within the replay buffer, and so do retained chunks within theirs: a
/// write is taken exactly where both limits hold with it, on a flow that is open and whose
/// offsets do not run out.
pub proof fn law_writes_stay_within_both_limits(
    writing: &mut FlowState,
    bytes: &Bytes,
    result: Result<Option<u64>, Failure>,
)
    requires
        old(writing)@.error is None,
        old(writing)@.shutdown_target is None,
        old(writing)@.next_send_offset + storage::contents(*bytes).len() <= u64::MAX,
        call_ensures(FlowState::enqueue, (writing, bytes), result),
    ensures
        (result matches Ok(Some(_)))
            <==> old(writing)@.retained_bytes + storage::contents(*bytes).len() <= old(writing)@.replay_limit
            && old(writing)@.retained_chunks + 1 <= old(writing)@.replay_chunk_limit,
        (result matches Ok(Some(_))) ==> final(writing)@.retained_bytes <= final(writing)@.replay_limit
            && final(writing)@.retained_chunks <= final(writing)@.replay_chunk_limit,
        (result matches Ok(Some(_))) && old(writing)@.task_waits ==> final(writing)@.wakes.task,
        result is Ok,
{
}

/// A write that would push the offsets of a flow past their largest value is refused, and
/// nothing of it is kept.
pub proof fn law_offsets_do_not_wrap(
    writing: &mut FlowState,
    bytes: &Bytes,
    result: Result<Option<u64>, Failure>,
)
    requires
        old(writing)@.next_send_offset + storage::contents(*bytes).len() > 0xffff_ffff_ffff_ffff,
        call_ensures(FlowState::enqueue, (writing, bytes), result),
    ensures
        !(result matches Ok(Some(_))),
        final(writing)@.outbound == old(writing)@.outbound,
        final(writing)@.next_send_offset == old(writing)@.next_send_offset,
        final(writing)@.retained_bytes == old(writing)@.retained_bytes,
{
}

/// Taking the first chunk that waits and putting it back leaves the flow as it was.
pub proof fn law_chunk_put_back_is_never_gone(taking: &mut FlowState, chunk: Outbound, back: &mut FlowState)
    requires
        call_ensures(FlowState::take_outbound, (taking,), Some(chunk)),
        old(back)@ == final(taking)@,
        call_ensures(FlowState::put_back, (back, chunk), ()),
    ensures
        final(back)@ == old(taking)@,
{
    assert(seq![old(taking)@.outbound[0]] + old(taking)@.outbound.skip(1) =~= old(taking)@.outbound);
}

/// Chunks leave a flow in the order in which they were written: the first to be taken is the
/// oldest, and one written to an empty queue is the next to be taken, with its offset.
pub proof fn law_oldest_chunk_leaves_first(
    writing: &mut FlowState,
    bytes: &Bytes,
    end: u64,
    taking: &mut FlowState,
    chunk: Option<Outbound>,
)
    requires
        call_ensures(FlowState::enqueue, (writing, bytes), Ok::<Option<u64>, Failure>(Some(end))),
        old(taking)@ == final(writing)@,
        call_ensures(FlowState::take_outbound, (taking,), chunk),
    ensures
        chunk is Some,
        if old(writing)@.outbound.len() == 0 {
            &&& state::chunk_model(chunk->0).1 == storage::contents(*bytes)
            &&& chunk->0.offset + storage::contents(*bytes).len() == end
            &&& final(taking)@.outbound.len() == 0
        } else {
            &&& state::chunk_model(chunk->0) == old(writing)@.outbound[0]
            &&& final(taking)@.outbound.last() == ((end - storage::contents(*bytes).len()) as u64, storage::contents(
                *bytes,
            ))
        },
{
}

// ---------------------------------------------------------------------------
// Credit
// ---------------------------------------------------------------------------

/// The credit that the peer is told is the one that is kept: right after it was told, bytes
/// are admitted exactly where they end within it, and so is the end of the stream.
pub proof fn law_credit_told_is_credit_kept(
    telling: &mut FlowState,
    ack_due: bool,
    feedback: (bool, Option<u64>),
    offset: u64,
    length: usize,
    result: Result<u64, RecoveryError>,
    last: Result<(), RecoveryError>,
)
    requires
        feedback.1 is Some,
        call_ensures(FlowState::take_feedback, (telling, ack_due), feedback),
        call_ensures(FlowState::admit_bytes, (&*final(telling), offset, length), result),
        call_ensures(FlowState::admit_final_offset, (&*final(telling), offset), last),
    ensures
        result is Ok <==> offset + length <= feedback.1->0,
        result matches Ok(end) ==> end == offset + length,
        result matches Err(error) ==> error == (if offset + length > 0xffff_ffff_ffff_ffff {
            RecoveryError::OffsetOverflow
        } else {
            RecoveryError::FlowControl
        }),
        last is Ok <==> offset <= feedback.1->0,
        last matches Err(error) ==> error == RecoveryError::FlowControl,
{
}

/// A credit is told once: asked again with nothing read in between, there is nothing to tell,
/// and an acknowledgement that was just taken is not owed any more.
pub proof fn law_feedback_is_given_once(
    telling: &mut FlowState,
    ack_due: bool,
    feedback: (bool, Option<u64>),
    again: &mut FlowState,
    ack_due_then: bool,
    feedback_then: (bool, Option<u64>),
)
    requires
        call_ensures(FlowState::take_feedback, (telling, ack_due), feedback),
        old(again)@ == final(telling)@,
        call_ensures(FlowState::take_feedback, (again, ack_due_then), feedback_then),
    ensures
        feedback_then.1 is None,
        feedback.0 ==> !feedback_then.0,
        feedback.0 <==> ack_due && old(telling)@.ack_pending > 0,
        !ack_due ==> final(telling)@.ack_pending == old(telling)@.ack_pending,
        feedback.0 ==> final(telling)@.ack_pending == 0,
{
}

/// A new flow admits bytes up to the size of its reassembly buffer, and tells its peer so the
/// first time it is asked for feedback.
pub proof fn law_new_flow_offers_its_reassembly_buffer(
    recovery: RecoveryConfig,
    replay_chunk_limit: usize,
    initial_send_offset: u64,
    flow: FlowState,
    offset: u64,
    length: usize,
    result: Result<u64, RecoveryError>,
    telling: &mut FlowState,
    ack_due: bool,
    feedback: (bool, Option<u64>),
)
    requires
        call_ensures(FlowState::new, (recovery, replay_chunk_limit, initial_send_offset), flow),
        call_ensures(FlowState::admit_bytes, (&flow, offset, length), result),
        old(telling)@ == flow@,
        call_ensures(FlowState::take_feedback, (telling, ack_due), feedback),
    ensures
        result is Ok <==> offset + length <= recovery.reassembly_buffer_bytes,
        feedback == (false, Some(recovery.reassembly_buffer_bytes as u64)),
{
}

/// Reading opens the window: once bytes have been read up to an offset, everything that ends
/// within a receive window behind it is admitted, as far as offsets can be written on the
/// wire, and the peer is told. Credit is never taken back.
pub proof fn law_reading_opens_the_window(
    reading: &mut FlowState,
    read: usize,
    next_offset: u64,
    finished: bool,
    told: Option<usize>,
    offset: u64,
    length: usize,
    before: Result<u64, RecoveryError>,
    after: Result<u64, RecoveryError>,
    telling: &mut FlowState,
    ack_due: bool,
    feedback: (bool, Option<u64>),
)
    requires
        call_ensures(FlowState::admit_bytes, (&*old(reading), offset, length), before),
        call_ensures(FlowState::after_read, (reading, read, next_offset, finished), told),
        call_ensures(FlowState::admit_bytes, (&*final(reading), offset, length), after),
        old(telling)@ == final(reading)@,
        call_ensures(FlowState::take_feedback, (telling, ack_due), feedback),
    ensures
        before is Ok ==> after is Ok,
        read > 0 && offset + length <= 0x3fff_ffff_ffff_ffff
            && offset + length <= next_offset + old(reading)@.receive_window ==> after is Ok,
        after is Ok && before is Err ==> {
            &&& read > 0
            &&& offset + length <= next_offset + old(reading)@.receive_window
            &&& offset + length <= 0x3fff_ffff_ffff_ffff
            &&& feedback.1 matches Some(credit) && offset + length <= credit
            &&& old(reading)@.task_waits ==> final(reading)@.wakes.task
        },
{
}

/// A read that finds bytes, or the end of the stream, answers how many it found; one that
/// finds neither leaves the reader waiting, and bytes, the end or a failure wake it.
pub proof fn law_reader_waits_for_bytes(
    reading: &mut FlowState,
    read: usize,
    next_offset: u64,
    finished: bool,
    told: Option<usize>,
    storing: &mut FlowState,
    end: u64,
    fin: bool,
    ending: &mut FlowState,
    failing: &mut FlowState,
    kind: FailureKind,
    message: String,
)
    requires
        call_ensures(FlowState::after_read, (reading, read, next_offset, finished), told),
        old(storing)@ == final(reading)@,
        call_ensures(FlowState::commit_bytes, (storing, end, fin), ()),
        old(ending)@ == final(reading)@,
        call_ensures(FlowState::commit_final_offset, (ending, end), ()),
        old(failing)@ == final(reading)@,
        call_ensures(FlowState::fail, (failing, kind, message), ()),
    ensures
        told is None <==> read == 0 && !finished,
        told matches Some(count) ==> count == read,
        told is None ==> final(reading)@.reader_waits,
        told is None ==> final(storing)@.wakes.reader && !final(storing)@.reader_waits,
        told is None ==> final(ending)@.wakes.reader && !final(ending)@.reader_waits,
        told is None ==> final(failing)@.wakes.reader && !final(failing)@.reader_waits,
{
}

/// Each record that is stored is owed one acknowledgement, until one covers them all; the
/// count stops at its largest value. The task is woken by the first record and from the
/// sixteenth on.
pub proof fn law_records_are_counted_for_the_acknowledgement(
    storing: &mut FlowState,
    end: u64,
    fin: bool,
    before: u32,
    after: u32,
)
    requires
        call_ensures(FlowState::ack_pending, (&*old(storing),), before),
        call_ensures(FlowState::commit_bytes, (storing, end, fin), ()),
        call_ensures(FlowState::ack_pending, (&*final(storing),), after),
    ensures
        after == (if before < 0xffff_ffff {
            before + 1
        } else {
            before as int
        }),
        after > 0,
        old(storing)@.task_waits && (before == 0 || before >= 15) ==> final(storing)@.wakes.task,
        0 < before < 15 ==> final(storing)@.wakes.task == old(storing)@.wakes.task,
        fin ==> final(storing)@.receive_final_offset == Some(end),
        !fin ==> final(storing)@.receive_final_offset == old(storing)@.receive_final_offset,
{
}

/// The end of the peer's stream is remembered where it was said to be, is owed an
/// acknowledgement, and wakes both the reader and the task.
pub proof fn law_end_of_the_peer_is_remembered(ending: &mut FlowState, offset: u64)
    requires
        call_ensures(FlowState::commit_final_offset, (ending, offset), ()),
    ensures
        final(ending)@.receive_final_offset == Some(offset),
        final(ending)@.ack_pending > 0,
        old(ending)@.reader_waits ==> final(ending)@.wakes.reader,
        old(ending)@.task_waits ==> final(ending)@.wakes.task,
        final(ending)@.max_receive_offset == old(ending)@.max_receive_offset,
{
}

/// The last acknowledgement is out when all bytes up to the end of the peer's stream have
/// come, an acknowledgement of them all has been written, and none is owed; not before.
pub proof fn law_last_acknowledgement_covers_the_end(
    storing: &mut FlowState,
    end: u64,
    early: bool,
    telling: &mut FlowState,
    feedback: (bool, Option<u64>),
    contiguous: u64,
    acked: u64,
    written: bool,
)
    requires
        call_ensures(FlowState::commit_bytes, (storing, end, true), ()),
        call_ensures(FlowState::final_ack_written, (&*final(storing), contiguous, acked), early),
        old(telling)@ == final(storing)@,
        call_ensures(FlowState::take_feedback, (telling, true), feedback),
        call_ensures(FlowState::final_ack_written, (&*final(telling), contiguous, acked), written),
    ensures
        !early,
        feedback.0,
        written <==> contiguous == end && acked >= end,
{
}

/// The peer's credit never goes back, and what it grants last is what counts.
pub proof fn law_credit_of_the_peer_never_shrinks(
    raising: &mut FlowState,
    maximum: u64,
    result: Result<(), RecoveryError>,
    before: u64,
    after: u64,
)
    requires
        call_ensures(FlowState::peer_maximum, (&*old(raising),), before),
        call_ensures(FlowState::raise_peer_maximum, (raising, maximum), result),
        call_ensures(FlowState::peer_maximum, (&*final(raising),), after),
    ensures
        after >= before,
        result is Ok <==> maximum >= before,
        result is Ok ==> after == maximum && (old(raising)@.task_waits ==> final(raising)@.wakes.task),
        result is Err ==> final(raising)@ == old(raising)@,
{
}

// ---------------------------------------------------------------------------
// Failing, resetting and ending
// ---------------------------------------------------------------------------

/// The first failure of a flow is the one that everybody is told from then on; a later one
/// does not replace it.
pub proof fn law_first_failure_stays(
    first: &mut FlowState,
    kind: FailureKind,
    message: String,
    second: &mut FlowState,
    kind_then: FailureKind,
    message_then: String,
    told: Result<(), Failure>,
    flushing: &mut FlowState,
    flushed: Result<bool, Failure>,
    closing: &mut FlowState,
    closed: Result<bool, Failure>,
    writing: &mut FlowState,
    bytes: &Bytes,
    written: Result<Option<u64>, Failure>,
)
    requires
        old(first)@.error is None,
        call_ensures(FlowState::fail, (first, kind, message), ()),
        old(second)@ == final(first)@,
        call_ensures(FlowState::fail, (second, kind_then, message_then), ()),
        call_ensures(FlowState::check, (&*final(second),), told),
        old(flushing)@ == final(second)@,
        call_ensures(FlowState::request_flush, (flushing,), flushed),
        old(closing)@ == final(second)@,
        call_ensures(FlowState::request_shutdown, (closing,), closed),
        old(writing)@ == final(second)@,
        call_ensures(FlowState::enqueue, (writing, bytes), written),
    ensures
        told matches Err(failure) && failure.kind == kind && failure.message == message,
        flushed matches Err(failure) && failure.kind == kind && failure.message == message,
        closed matches Err(failure) && failure.kind == kind && failure.message == message,
        written matches Err(failure) && failure.kind == kind && failure.message@ == message@,
        old(first)@.reader_waits ==> final(first)@.wakes.reader,
        old(first)@.writer_waits ==> final(first)@.wakes.writer,
        final(flushing)@ == final(second)@ && final(closing)@ == final(second)@ && final(writing)@ == final(second)@,
{
}

/// A flow whose state holds no failure says so.
pub proof fn law_healthy_flow_is_told_healthy(flow: &FlowState, told: Result<(), Failure>)
    requires
        flow@.error is None,
        call_ensures(FlowState::check, (flow,), told),
    ensures
        told is Ok,
{
}

/// A reset that is accepted for the first time empties the queue, gives back what it charged
/// for, fails the flow, wakes everybody, and hands its code to the task exactly once.
pub proof fn law_reset_reaches_the_task_once(
    resetting: &mut FlowState,
    code: u64,
    taking: &mut FlowState,
    chunk: Option<Outbound>,
    first: &mut FlowState,
    turn: (Option<u64>, bool),
    second: &mut FlowState,
    turn_then: (Option<u64>, bool),
    told: Result<(), Failure>,
)
    requires
        !old(resetting)@.locally_reset,
        call_ensures(FlowState::request_reset, (resetting, code), true),
        old(taking)@ == final(resetting)@,
        call_ensures(FlowState::take_outbound, (taking,), chunk),
        call_ensures(FlowState::check, (&*final(resetting),), told),
        old(first)@ == final(resetting)@,
        call_ensures(FlowState::begin_turn, (first,), turn),
        old(second)@ == final(first)@,
        call_ensures(FlowState::begin_turn, (second,), turn_then),
    ensures
        chunk is None,
        told matches Err(failure) && failure.kind == FailureKind::ConnectionAborted,
        turn.0 == Some(code),
        turn_then.0 is None,
        turn_then.1 == turn.1,
        final(resetting)@.retained_bytes + state::total(old(resetting)@.outbound) == old(resetting)@.retained_bytes,
        final(resetting)@.retained_chunks + old(resetting)@.outbound.len() == old(resetting)@.retained_chunks,
        old(resetting)@.reader_waits ==> final(resetting)@.wakes.reader,
        old(resetting)@.writer_waits ==> final(resetting)@.wakes.writer,
        old(resetting)@.task_waits ==> final(resetting)@.wakes.task,
        final(first)@.task_waits,
{
}

/// A reset is accepted on every flow that runs without a failure, and again on one that was
/// reset, where it changes nothing; a flow that failed otherwise or whose task stopped takes
/// none and is left as it is.
pub proof fn law_reset_is_for_running_flows(
    resetting: &mut FlowState,
    code: u64,
    accepted: bool,
    again: &mut FlowState,
    code_then: u64,
    accepted_then: bool,
)
    requires
        call_ensures(FlowState::request_reset, (resetting, code), accepted),
        old(again)@ == final(resetting)@,
        call_ensures(FlowState::request_reset, (again, code_then), accepted_then),
    ensures
        old(resetting)@.error is None && !old(resetting)@.task_stopped ==> accepted,
        !old(resetting)@.locally_reset && (old(resetting)@.error is Some || old(resetting)@.task_stopped)
            ==> !accepted,
        !accepted ==> final(resetting)@ == old(resetting)@,
        accepted ==> accepted_then && final(again)@ == final(resetting)@,
        accepted_then == accepted,
{
}

/// A handle that is dropped makes the task stop: the task is woken, and each of its turns
/// finds the handle gone.
pub proof fn law_dropped_handle_is_noticed(
    dropping: &mut FlowState,
    begun: &mut FlowState,
    turn: (Option<u64>, bool),
)
    requires
        call_ensures(FlowState::drop_handle, (dropping,), ()),
        old(begun)@ == final(dropping)@,
        call_ensures(FlowState::begin_turn, (begun,), turn),
    ensures
        turn == (old(dropping)@.reset, true),
        final(begun)@.handle_dropped,
        final(begun)@.task_waits,
        old(dropping)@.task_waits ==> final(dropping)@.wakes.task,
{
}

/// Discarding what is retained leaves nothing charged and nothing to send, and wakes a writer
/// that waits for room. The offsets stay.
pub proof fn law_discarding_leaves_nothing_charged(
    discarding: &mut FlowState,
    retained: (usize, usize),
    empty: bool,
    full: bool,
)
    requires
        call_ensures(FlowState::discard_retained, (discarding,), ()),
        call_ensures(FlowState::retained, (&*final(discarding),), retained),
        call_ensures(FlowState::outbound_is_empty, (&*final(discarding),), empty),
        call_ensures(FlowState::chunks_full, (&*final(discarding),), full),
    ensures
        retained == (0usize, 0usize),
        empty,
        full <==> old(discarding)@.replay_chunk_limit <= 0,
        old(discarding)@.writer_waits ==> final(discarding)@.wakes.writer,
        final(discarding)@.next_send_offset == old(discarding)@.next_send_offset,
        final(discarding)@.flushed_offset == old(discarding)@.flushed_offset,
{
}

/// A task that stops wakes the reader and the writer, and no reset is accepted any more.
pub proof fn law_stopped_task_wakes_both_sides(
    stopping: &mut FlowState,
    resetting: &mut FlowState,
    code: u64,
    accepted: bool,
)
    requires
        !old(stopping)@.locally_reset,
        call_ensures(FlowState::mark_task_stopped, (stopping,), ()),
        old(resetting)@ == final(stopping)@,
        call_ensures(FlowState::request_reset, (resetting, code), accepted),
    ensures
        !accepted,
        old(stopping)@.reader_waits ==> final(stopping)@.wakes.reader,
        old(stopping)@.writer_waits ==> final(stopping)@.wakes.writer,
{
}

/// Wakes are handed out once: asked again, nobody is to be woken, and nothing else changed.
pub proof fn law_wakes_are_handed_out_once(
    waking: &mut FlowState,
    first: &mut FlowState,
    wakes: FlowWakes,
    second: &mut FlowState,
    wakes_then: FlowWakes,
)
    requires
        old(waking)@.task_waits,
        call_ensures(FlowState::wake_task, (waking,), ()),
        old(first)@ == final(waking)@,
        call_ensures(FlowState::take_wakes, (first,), wakes),
        old(second)@ == final(first)@,
        call_ensures(FlowState::take_wakes, (second,), wakes_then),
    ensures
        wakes.task,
        wakes.reader == old(waking)@.wakes.reader && wakes.writer == old(waking)@.wakes.writer,
        !final(waking)@.task_waits,
        !wakes_then.reader && !wakes_then.writer && !wakes_then.task,
        final(second)@ == final(first)@,
{
}

/// What a new flow has read frees as much of its reassembly buffer: once bytes were read up to an
/// offset, everything within the size of that buffer behind it is admitted, as far as offsets
/// can be written on the wire, and nothing beyond that.
pub proof fn law_window_is_the_reassembly_buffer(
    recovery: RecoveryConfig,
    replay_chunk_limit: usize,
    initial_send_offset: u64,
    flow: FlowState,
    reading: &mut FlowState,
    read: usize,
    next_offset: u64,
    finished: bool,
    told: Option<usize>,
    offset: u64,
    length: usize,
    result: Result<u64, RecoveryError>,
)
    requires
        call_ensures(FlowState::new, (recovery, replay_chunk_limit, initial_send_offset), flow),
        old(reading)@ == flow@,
        read > 0,
        call_ensures(FlowState::after_read, (reading, read, next_offset, finished), told),
        call_ensures(FlowState::admit_bytes, (&*final(reading), offset, length), result),
        next_offset + recovery.reassembly_buffer_bytes <= 0x3fff_ffff_ffff_ffff,
    ensures
        result is Ok <==> offset + length <= next_offset + recovery.reassembly_buffer_bytes,
{
}

} // verus!
