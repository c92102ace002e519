//! What holds of a flow from its opening to its writes.
use crate::flow::admission;
use crate::flow::admission::{
    AcceptFailure, AcceptStage, AdmissionFrame, EarlyFinding, EarlyStage, FlowError, OpenStage, OpenStatus, ReadFailure,
    SessionError,
};
use crate::flow::handle;
use crate::flow::handle::{InitialStep, QuicpFlow, ReadStep};
use crate::flow::pending::{AcceptingFlow, OpenRequest, PendingFlow, Reply};
use crate::flow::state;
use crate::flow::state::{FailureKind, FlowState};
use crate::flow::turn;
use crate::flow::turn::{PhaseEvent, TaskStep, Turn};
use crate::flow::write::WriteOutcome;
use crate::recovery::RecoveryError;
use bytes::Bytes;
use vstd::prelude::*;

verus! {

// ---------------------------------------------------------------------------
// The exchange
// ---------------------------------------------------------------------------

/// The opener goes through two frames, and no other: negotiated capabilities, and then an
/// accepting status. A refusing status ends it with that status.
pub proof fn law_opener_waits_for_capabilities_and_status(
    stage: OpenStage,
    frame: AdmissionFrame,
    result: Result<OpenStage, FlowError>,
)
    requires
        call_ensures(OpenStage::advance, (stage, frame), result),
    ensures
        result == Ok::<OpenStage, FlowError>(OpenStage::AwaitStatus) <==> stage is AwaitCapabilities && frame == (
        AdmissionFrame::Capabilities { negotiated: true }),
        result == Ok::<OpenStage, FlowError>(OpenStage::Opened) <==> stage is AwaitStatus && frame
            == AdmissionFrame::Status(OpenStatus::Accepted),
        stage is AwaitStatus && (frame matches AdmissionFrame::Status(OpenStatus::Refused(code))) ==> result
            == Err::<OpenStage, FlowError>(FlowError::Rejected(frame->Status_0)),
        result is Err && !(stage is AwaitStatus && frame is Status) ==> result == Err::<OpenStage, FlowError>(
            FlowError::Session(SessionError::InvalidState),
        ),
        result matches Ok(next) ==> !(next is AwaitCapabilities),
{
}

/// The end that is asked goes through negotiated capabilities and an opening, with early data
/// only where it takes them.
pub proof fn law_acceptor_waits_for_capabilities_and_opening(
    stage: AcceptStage,
    frame: AdmissionFrame,
    takes_early: bool,
    result: Result<AcceptStage, FlowError>,
)
    requires
        call_ensures(AcceptStage::advance, (stage, frame, takes_early), result),
    ensures
        result == Ok::<AcceptStage, FlowError>(AcceptStage::AwaitOpen) <==> stage is AwaitCapabilities && frame == (
        AdmissionFrame::Capabilities { negotiated: true }),
        result == Ok::<AcceptStage, FlowError>(AcceptStage::Requested) <==> stage is AwaitOpen && frame is Open,
        result == Ok::<AcceptStage, FlowError>(AcceptStage::EarlyRequested) <==> stage is AwaitOpen
            && frame is EarlyOpen
            && takes_early,
        result is Err ==> result == Err::<AcceptStage, FlowError>(FlowError::Session(SessionError::InvalidState)),
        result matches Ok(next) ==> !(next is AwaitCapabilities),
{
}

/// Early data that pass every check are accepted: the token, the fingerprint, the
/// authorization, the memory and the replay protection, in this order; a peer that has not
/// authenticated yet does so and is authorized again.
pub proof fn law_early_data_that_pass_are_accepted(
    initial_length: usize,
    flow_buffer_bytes: usize,
    begun: Result<EarlyStage, FlowError>,
    stage: EarlyStage,
    passed: Result<EarlyStage, FlowError>,
    error: FlowError,
    failed: Result<EarlyStage, FlowError>,
)
    requires
        call_ensures(EarlyStage::begin, (initial_length, flow_buffer_bytes), begun),
        call_ensures(EarlyStage::advance, (stage, EarlyFinding::Passed), passed),
        call_ensures(EarlyStage::advance, (stage, EarlyFinding::Failed(error)), failed),
    ensures
        begun is Ok <==> initial_length <= flow_buffer_bytes,
        begun matches Ok(first) ==> first is Token,
        stage is Token ==> passed == Ok::<EarlyStage, FlowError>(EarlyStage::Fingerprint),
        stage is Fingerprint ==> passed == Ok::<EarlyStage, FlowError>(EarlyStage::Authorization),
        stage is Authorization ==> passed == Ok::<EarlyStage, FlowError>(EarlyStage::Memory),
        stage is Authentication ==> passed == Ok::<EarlyStage, FlowError>(EarlyStage::SecondAuthorization),
        stage is SecondAuthorization ==> passed == Ok::<EarlyStage, FlowError>(EarlyStage::Memory),
        stage is Memory ==> passed == Ok::<EarlyStage, FlowError>(EarlyStage::Replay),
        stage is Replay ==> passed == Ok::<EarlyStage, FlowError>(EarlyStage::Accepted),
        failed is Ok <==> stage is Authorization && error == FlowError::Session(SessionError::PeerUnauthenticated),
        failed matches Ok(next) ==> next is Authentication,
        failed matches Err(told) ==> told == error,
{
}

/// A broken wire format and a stream that ends too early are breaches of the protocol, and
/// nothing else is.
pub proof fn law_breaches_of_the_exchange(error: FlowError, violation: bool)
    requires
        call_ensures(FlowError::is_protocol_violation, (&error,), violation),
    ensures
        violation <==> error == FlowError::Session(SessionError::Wire) || error == FlowError::Read(
            ReadFailure::FinishedEarly,
        ),
{
}

// ---------------------------------------------------------------------------
// Accepting and refusing
// ---------------------------------------------------------------------------

/// A request without early bytes is accepted; one with early bytes where they are paid for and
/// fit the reassembly buffer. The flow begins at offset zero with the buffers that were set.
pub proof fn law_paid_request_is_accepted(pending: PendingFlow, result: Result<AcceptingFlow, FlowError>)
    requires
        call_ensures(PendingFlow::accept, (pending,), result),
    ensures
        result is Ok <==> pending@.initial.len() == 0 || pending@.charge is Some && pending@.initial.len()
            <= pending@.settings.recovery.reassembly_buffer_bytes,
        result matches Ok(accepting) ==> {
            &&& accepting@.initial == pending@.initial
            &&& accepting@.charge == pending@.charge
            &&& accepting@.state.next_send_offset == 0 && accepting@.state.flushed_offset == 0
            &&& accepting@.state.replay_limit == pending@.settings.recovery.replay_buffer_bytes
            &&& accepting@.state.max_receive_offset == pending@.settings.recovery.reassembly_buffer_bytes
            &&& accepting@.state.outbound.len() == 0 && accepting@.state.error is None
        },
        pending@.initial.len() > 0 && pending@.charge is None ==> result == Err::<AcceptingFlow, FlowError>(
            FlowError::Accept(AcceptFailure::Recovery(RecoveryError::Capacity)),
        ),
{
}

/// A request is refused with the capabilities, the refusing status and the end of the stream,
/// in this order; an accepting status refuses nothing.
pub proof fn law_refusal_is_told(
    pending: PendingFlow,
    status: OpenStatus,
    result: Result<Vec<Reply>, FlowError>,
    checked: Result<(), FlowError>,
)
    requires
        call_ensures(PendingFlow::reject, (pending, status), result),
        call_ensures(admission::check_reject, (status,), checked),
    ensures
        result is Ok <==> status is Refused,
        checked is Ok <==> status is Refused,
        result matches Ok(replies) ==> replies@.len() == 3 && replies@[0] is Capabilities && replies@[1]
            == Reply::Status(status) && replies@[2] is Finish,
        result matches Err(error) ==> error == FlowError::InvalidRejectStatus,
{
}

/// An accepted request is answered with the capabilities and the accepting status; its early
/// bytes count as one record that waits for its acknowledgement. Where they could not be stored
/// there is no flow.
pub proof fn law_accepted_request_becomes_a_flow(
    accepting: AcceptingFlow,
    stored: Result<(), RecoveryError>,
    result: Result<(QuicpFlow, Vec<Reply>), FlowError>,
)
    requires
        accepting@.state.ack_pending == 0,
        call_ensures(AcceptingFlow::after_store, (accepting, stored), result),
    ensures
        result is Ok <==> stored is Ok || accepting@.initial.len() == 0,
        result matches Ok((flow, replies)) ==> {
            &&& replies@.len() == 2 && replies@[0] is Capabilities && replies@[1] == Reply::Status(OpenStatus::Accepted)
            &&& flow@.buffer.len() == 0
            &&& flow@.nodelay == accepting@.settings.default_nodelay
            &&& flow@.limit == accepting@.settings.flow_buffer_bytes
            &&& flow@.state.ack_pending == (if accepting@.initial.len() == 0 {
                0int
            } else {
                1
            })
            &&& flow@.state.receive_final_offset == accepting@.state.receive_final_offset
        },
{
}

/// What a request says is kept until it is decided.
pub proof fn law_request_keeps_what_it_says(
    request: OpenRequest,
    initial: Bytes,
    charge: crate::recovery::RecoveryCharge,
    settings: crate::flow::pending::FlowSettings,
    plain: PendingFlow,
    early: PendingFlow,
    told: &OpenRequest,
    bytes: &[u8],
)
    requires
        call_ensures(PendingFlow::ordinary, (request, settings), plain),
        call_ensures(PendingFlow::early, (request, initial, charge, settings), early),
        call_ensures(PendingFlow::request, (&early,), told),
        call_ensures(PendingFlow::initial_data, (&early,), bytes),
    ensures
        *told == request,
        bytes@ == crate::storage::contents(initial),
        plain@.request == request && plain@.initial.len() == 0 && plain@.charge is None,
        early@.charge == Some(charge),
{
}

/// The first bytes of a flow are written until none is left, and then flushed; a write that
/// takes none of them fails.
pub proof fn law_first_bytes_are_written_and_flushed(
    length: usize,
    first: InitialStep,
    written: usize,
    count: usize,
    next: Result<InitialStep, FlowError>,
)
    requires
        written <= length,
        count <= length - written,
        call_ensures(handle::write_all_initial, (length,), first),
        call_ensures(handle::after_initial_write, (length, written, count), next),
    ensures
        length > 0 ==> first == InitialStep::Write(0),
        length == 0 ==> first is Flush,
        count == 0 ==> next == Err::<InitialStep, FlowError>(FlowError::Write),
        count > 0 && written + count == length ==> next == Ok::<InitialStep, FlowError>(InitialStep::Flush),
        count > 0 && written + count < length ==> next == Ok::<InitialStep, FlowError>(
            InitialStep::Write((written + count) as usize),
        ),
{
}

// ---------------------------------------------------------------------------
// Writing through the handle
// ---------------------------------------------------------------------------

/// Where small writes are gathered, a write that leaves room in the buffer is taken whole and
/// only put behind what was gathered; nothing is sent yet.
pub proof fn law_small_writes_are_gathered(flow: &mut QuicpFlow, given: &[u8], outcome: WriteOutcome)
    requires
        !old(flow)@.nodelay,
        given@.len() > 0,
        given@.len() <= usize::MAX,
        old(flow)@.buffer.len() + given@.len() < old(flow)@.limit,
        call_ensures(QuicpFlow::poll_write, (flow, given), outcome),
    ensures
        outcome matches WriteOutcome::Accepted(count) && count == given@.len(),
        final(flow)@.buffer == old(flow)@.buffer + given@,
        final(flow)@.state == old(flow)@.state,
{
    assert(given@.take(given@.len() as int) =~= given@);
}

/// A write that fills the buffer hands all of it over at once, as one chunk behind everything
/// written before, where the flow has room for a whole buffer; where it has none, nothing is
/// taken and the writer waits.
pub proof fn law_full_buffer_is_handed_over(flow: &mut QuicpFlow, given: &[u8], outcome: WriteOutcome)
    requires
        !old(flow)@.nodelay,
        given@.len() > 0,
        0 < old(flow)@.limit <= isize::MAX,
        old(flow)@.buffer.len() < old(flow)@.limit,
        old(flow)@.buffer.len() + given@.len() >= old(flow)@.limit,
        old(flow)@.state.error is None,
        old(flow)@.state.shutdown_target is None,
        old(flow)@.state.next_send_offset + old(flow)@.limit <= u64::MAX,
        call_ensures(QuicpFlow::poll_write, (flow, given), outcome),
    ensures
        ({
            let taken = old(flow)@.limit - old(flow)@.buffer.len();
            let room = old(flow)@.state.retained_bytes + old(flow)@.limit <= old(flow)@.state.replay_limit
                && old(flow)@.state.retained_chunks < old(flow)@.state.replay_chunk_limit;
            if room {
                &&& outcome matches WriteOutcome::Accepted(count) && count == taken
                &&& final(flow)@.buffer.len() == 0
                &&& final(flow)@.state.outbound == old(flow)@.state.outbound.push(
                    (old(flow)@.state.next_send_offset, old(flow)@.buffer + given@.take(taken)),
                )
            } else {
                &&& outcome is Pending
                &&& final(flow)@.buffer == old(flow)@.buffer
                &&& final(flow)@.state.writer_waits
                &&& final(flow)@.state.outbound == old(flow)@.state.outbound
            }
        }),
{
}

/// Without gathering, a write to an empty buffer is handed over at once, as far as the buffer
/// reaches, where the flow has room for it.
pub proof fn law_undelayed_write_is_handed_over(flow: &mut QuicpFlow, given: &[u8], outcome: WriteOutcome)
    requires
        old(flow)@.nodelay,
        given@.len() > 0,
        0 < old(flow)@.limit <= isize::MAX,
        old(flow)@.buffer.len() == 0,
        old(flow)@.state.error is None,
        old(flow)@.state.shutdown_target is None,
        old(flow)@.state.next_send_offset + old(flow)@.limit <= u64::MAX,
        old(flow)@.state.retained_chunks < old(flow)@.state.replay_chunk_limit,
        old(flow)@.state.retained_bytes + old(flow)@.limit <= old(flow)@.state.replay_limit,
        call_ensures(QuicpFlow::poll_write, (flow, given), outcome),
    ensures
        ({
            let taken = if given@.len() < old(flow)@.limit {
                given@.len() as int
            } else {
                old(flow)@.limit
            };
            &&& outcome matches WriteOutcome::Accepted(count) && count == taken
            &&& final(flow)@.buffer.len() == 0
            &&& final(flow)@.state.outbound == old(flow)@.state.outbound.push(
                (old(flow)@.state.next_send_offset, given@.take(taken)),
            )
        }),
{
    let taken = if given@.len() < old(flow)@.limit {
        given@.len() as int
    } else {
        old(flow)@.limit
    };
    assert(old(flow)@.buffer + given@.take(taken) =~= given@.take(taken));
}

/// An empty write is taken and changes nothing.
pub proof fn law_empty_write_changes_nothing(flow: &mut QuicpFlow, given: &[u8], outcome: WriteOutcome)
    requires
        given@.len() == 0,
        call_ensures(QuicpFlow::poll_write, (flow, given), outcome),
    ensures
        outcome == WriteOutcome::Accepted(0),
        final(flow)@ == old(flow)@,
{
}

/// A read without room is done at once; with room it takes what is there, unless the flow
/// failed, and then it is told the failure.
pub proof fn law_read_needs_room(flow: &QuicpFlow, room: usize, step: ReadStep)
    requires
        call_ensures(QuicpFlow::poll_read, (flow, room), step),
    ensures
        step is Done <==> room == 0,
        step is Take <==> room > 0 && flow@.state.error is None,
        step matches ReadStep::Failed(failure) ==> flow@.state.error == Some(failure),
{
}

/// The handle gathers small writes unless it is told not to, and tells how it was set.
pub proof fn law_nodelay_is_kept(flow: &mut QuicpFlow, wanted: bool, told: bool)
    requires
        call_ensures(QuicpFlow::set_nodelay, (flow, wanted), ()),
        call_ensures(QuicpFlow::nodelay, (&*final(flow),), told),
    ensures
        told == wanted,
        final(flow)@.state == old(flow)@.state && final(flow)@.buffer == old(flow)@.buffer,
{
}

/// A handle is reset exactly as its flow is, and is told where that is not possible.
pub proof fn law_handle_is_reset_as_its_flow(flow: &mut QuicpFlow, code: u64, result: Result<(), FlowError>)
    requires
        call_ensures(QuicpFlow::reset, (flow, code), result),
    ensures
        result is Ok <==> old(flow)@.state.locally_reset || !old(flow)@.state.task_stopped
            && old(flow)@.state.error is None,
        result is Ok && !old(flow)@.state.locally_reset ==> final(flow)@.state.reset == Some(code)
            && final(flow)@.state.outbound.len() == 0 && final(flow)@.state.error is Some,
        result is Err || old(flow)@.state.locally_reset ==> final(flow)@ == old(flow)@,
{
}

// ---------------------------------------------------------------------------
// Turns
// ---------------------------------------------------------------------------

/// A turn goes through its phases in one order: receiving, feedback, sending, sending again,
/// the end, writing, finishing. A failure ends it at once; after the last phase the task waits
/// where nothing was done, yields after 32 turns, and otherwise takes another turn.
pub proof fn law_turn_goes_through_its_phases(at: &mut Turn, event: PhaseEvent, step: TaskStep)
    requires
        old(at).turn < 32,
        call_ensures(Turn::after_phase, (at, event), step),
    ensures
        event is Failed ==> step is Fail,
        !(event is Failed) ==> {
            &&& old(at).phase is Receive ==> step is Work && final(at).phase is Feedback
            &&& old(at).phase is Feedback ==> step is Work && final(at).phase is Outbound
            &&& old(at).phase is Outbound ==> step is Work && final(at).phase is Replay
            &&& old(at).phase is Replay ==> step is Work && final(at).phase is Terminal
            &&& old(at).phase is Terminal ==> step is Work && final(at).phase is Wire
            &&& old(at).phase is Wire ==> step is Work && final(at).phase is Finish
            &&& old(at).phase is Finish ==> {
                &&& step is Wait <==> !old(at).made_progress
                &&& step is Yield <==> old(at).made_progress && old(at).turn == 31
                &&& step is Work <==> old(at).made_progress && old(at).turn < 31
                &&& step is Work ==> final(at).turn == old(at).turn + 1 && final(at).phase is Receive
                    && !final(at).made_progress
            }
            &&& !(old(at).phase is Finish) ==> final(at).turn == old(at).turn && (final(at).made_progress
                <==> old(at).made_progress || event is Progress && (old(at).phase is Receive
                || old(at).phase is Outbound || old(at).phase is Replay))
        },
{
}

/// A task that ends gives up what it retained and wakes both sides; where the runtime stopped
/// the flow has failed.
pub proof fn law_ended_task_gives_up_what_it_retained(flow: &mut FlowState, runtime_stopped: bool)
    requires
        old(flow)@.error is None,
        call_ensures(turn::end_task, (flow, runtime_stopped), ()),
    ensures
        final(flow)@.outbound.len() == 0 && final(flow)@.retained_bytes == 0 && final(flow)@.retained_chunks == 0,
        final(flow)@.task_stopped,
        old(flow)@.reader_waits ==> final(flow)@.wakes.reader,
        old(flow)@.writer_waits ==> final(flow)@.wakes.writer,
        !runtime_stopped ==> final(flow)@.error is None,
        runtime_stopped ==> (final(flow)@.error matches Some(failure)
            && failure.kind == FailureKind::ConnectionAborted),
{
}

/// Where writes are not gathered any more, what was gathered before is handed over first, as a
/// chunk of its own, and then the write behind it.
pub proof fn law_gathered_bytes_go_before_an_undelayed_write(flow: &mut QuicpFlow, given: &[u8], outcome: WriteOutcome)
    requires
        old(flow)@.nodelay,
        given@.len() > 0,
        0 < old(flow)@.limit <= isize::MAX,
        0 < old(flow)@.buffer.len() <= old(flow)@.limit,
        old(flow)@.state.error is None,
        old(flow)@.state.shutdown_target is None,
        old(flow)@.state.next_send_offset + old(flow)@.limit + old(flow)@.limit <= u64::MAX,
        old(flow)@.state.retained_chunks + 1 < old(flow)@.state.replay_chunk_limit,
        old(flow)@.state.retained_bytes + old(flow)@.limit + old(flow)@.limit <= old(flow)@.state.replay_limit,
        call_ensures(QuicpFlow::poll_write, (flow, given), outcome),
    ensures
        ({
            let taken = if given@.len() < old(flow)@.limit {
                given@.len() as int
            } else {
                old(flow)@.limit
            };
            let behind = (old(flow)@.state.next_send_offset + old(flow)@.buffer.len()) as u64;
            &&& outcome matches WriteOutcome::Accepted(count) && count == taken
            &&& final(flow)@.buffer.len() == 0
            &&& final(flow)@.state.outbound == old(flow)@.state.outbound.push(
                (old(flow)@.state.next_send_offset, old(flow)@.buffer),
            ).push((behind, given@.take(taken)))
        }),
{
    let taken = if given@.len() < old(flow)@.limit {
        given@.len() as int
    } else {
        old(flow)@.limit
    };
    assert(Seq::<u8>::empty() + given@.take(taken) =~= given@.take(taken));
    assert forall|rest: Seq<u8>| rest.len() == 0
        implies #[trigger] (rest + given@.take(taken)) == given@.take(taken) by {
        assert(rest + given@.take(taken) =~= given@.take(taken));
    }
}

} // verus!
