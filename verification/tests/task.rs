//! The turns of a flow's control task, and flows that wait to be let in.
use bytes::Bytes;
use quicp::config::transport::RecoveryConfig;
use quicp::flow::admission::{AcceptFailure, FlowError, OpenStatus, ReadFailure, SessionError};
use quicp::flow::control::{control_input_limit, CONTROL_DECODE_BATCH};
use quicp::flow::pending::{FlowSettings, OpenRequest, PendingFlow, Reply};
use quicp::flow::state::{FailureKind, FlowState, Outbound};
use quicp::flow::task::{
    BackendFacts, FlowTask, FlowTaskError, FrameContent, OutboundStep, RepairEvent, ReplayAction, SourceEvent, SourceStep,
    FLOW_TASK_TURN_BUDGET,
};
use quicp::flow::turn::{
    apply_control, end_task, fail_task, start_poll, ControlInput, DecodeEvent, FrameAction, PeerFrame, Phase, PhaseEvent,
    ReadEvent, ReceiveStep, TaskStart, TaskStep, Turn,
};
use quicp::recovery::{RecoveryError, RecoveryMemoryBudget};

fn new_state() -> FlowState {
    FlowState::new(RecoveryConfig::default(), 4096, 0)
}

fn settings() -> FlowSettings {
    FlowSettings {
        recovery: RecoveryConfig::default(),
        replay_chunk_limit: 4096,
        flow_buffer_bytes: 1024,
        default_nodelay: true,
    }
}

fn request() -> OpenRequest {
    OpenRequest { host: "example.com".to_string(), port: 443 }
}

#[test]
fn input_is_decoded_in_batches_and_read_within_its_limit() {
    let mut input = ControlInput::new(100, 4);
    let limit = control_input_limit(100, 4);
    assert_eq!(input.after_decode(0, DecodeEvent::Truncated), Ok(ReceiveStep::Read(limit)));
    assert_eq!(input.after_read(ReadEvent::Read(b"abcdef"), false), Ok(true));
    assert_eq!(input.held(), b"abcdef");
    assert_eq!(input.after_decode(0, DecodeEvent::Applied(2)), Ok(ReceiveStep::Decode));
    assert_eq!(input.held(), b"cdef");
    assert_eq!(input.after_decode(CONTROL_DECODE_BATCH - 1, DecodeEvent::Applied(1)), Ok(ReceiveStep::Enough));
    assert_eq!(input.held(), b"def");
    assert_eq!(input.after_decode(0, DecodeEvent::Truncated), Ok(ReceiveStep::Read(limit - 3)));
    assert_eq!(input.after_read(ReadEvent::Pending, false), Ok(false));
    assert_eq!(input.after_read(ReadEvent::Read(&vec![0; limit - 3]), false), Ok(true));
    assert_eq!(input.after_decode(0, DecodeEvent::Truncated), Err(FlowTaskError::ControlLimit));
    assert_eq!(input.after_decode(0, DecodeEvent::Malformed), Err(FlowTaskError::Codec));
    assert_eq!(input.after_read(ReadEvent::Read(b""), false), Err(FlowTaskError::FinishedEarly));
    assert_eq!(input.after_read(ReadEvent::Read(b""), true), Ok(false));
    assert_eq!(input.after_read(ReadEvent::Reset(7), true), Err(FlowTaskError::PeerReset(7)));
    assert_eq!(input.after_read(ReadEvent::Failed, true), Err(FlowTaskError::Read));
    assert_eq!(input.held().len(), limit);
}

#[test]
fn control_frames_are_applied_within_the_window() {
    let mut flow = new_state();
    let window = u64::from(RecoveryConfig::default().reassembly_buffer_bytes);
    assert_eq!(apply_control(&mut flow, PeerFrame::Ack, 100), Ok(FrameAction::Acknowledge));
    assert_eq!(apply_control(&mut flow, PeerFrame::MaxOffset(10), 100), Ok(FrameAction::Done));
    assert_eq!(flow.peer_maximum(), 10);
    assert_eq!(
        apply_control(&mut flow, PeerFrame::MaxOffset(9), 100),
        Err(FlowTaskError::Recovery(RecoveryError::InvalidRange))
    );
    assert_eq!(apply_control(&mut flow, PeerFrame::Fin(window), 100), Ok(FrameAction::StoreEnd(window)));
    assert_eq!(
        apply_control(&mut flow, PeerFrame::Fin(window + 1), 100),
        Err(FlowTaskError::Recovery(RecoveryError::FlowControl))
    );
    let data = |offset: u64, length: usize| PeerFrame::StreamData { offset, length, fin: true };
    assert_eq!(
        apply_control(&mut flow, data(window - 100, 100), 100),
        Ok(FrameAction::StoreBytes { end: window, fin: true })
    );
    assert_eq!(apply_control(&mut flow, data(0, 101), 100), Err(FlowTaskError::Codec));
    assert_eq!(
        apply_control(&mut flow, data(window - 99, 100), 100),
        Err(FlowTaskError::Recovery(RecoveryError::FlowControl))
    );
    assert_eq!(
        apply_control(&mut flow, data(u64::MAX, 1), 100),
        Err(FlowTaskError::Recovery(RecoveryError::OffsetOverflow))
    );
    assert_eq!(apply_control(&mut flow, PeerFrame::Opening, 100), Err(FlowTaskError::UnexpectedControl));
}

#[test]
fn a_poll_takes_turns_in_order_until_nothing_moves() {
    let mut at = Turn::first();
    let mut order = Vec::new();
    loop {
        order.push(at.phase);
        if at.after_phase(PhaseEvent::Idle) != TaskStep::Work {
            break;
        }
    }
    assert_eq!(
        order,
        [
            Phase::Receive,
            Phase::Feedback,
            Phase::Outbound,
            Phase::Replay,
            Phase::Terminal,
            Phase::Wire,
            Phase::Finish,
        ]
    );

    let mut busy = Turn::first();
    let mut phases = 1;
    let last = loop {
        let step = busy.after_phase(PhaseEvent::Progress);
        if step != TaskStep::Work {
            break step;
        }
        phases += 1;
    };
    assert_eq!(last, TaskStep::Yield);
    assert_eq!(phases, FLOW_TASK_TURN_BUDGET * 7);

    // Frames that are written do not call for another turn.
    let mut writing = Turn { turn: 0, phase: Phase::Wire, made_progress: false };
    assert_eq!(writing.after_phase(PhaseEvent::Progress), TaskStep::Work);
    assert_eq!(writing.after_phase(PhaseEvent::Progress), TaskStep::Wait);
    assert_eq!(Turn::first().after_phase(PhaseEvent::Failed), TaskStep::Fail);
}

#[test]
fn a_poll_starts_with_a_reset_or_the_end_of_the_handle() {
    let mut running = new_state();
    assert_eq!(start_poll(&mut running), TaskStart::Run);
    running.drop_handle();
    assert_eq!(start_poll(&mut running), TaskStart::Stop);
    let mut reset = new_state();
    assert!(reset.request_reset(9));
    assert_eq!(start_poll(&mut reset), TaskStart::Reset(9));
    assert_eq!(start_poll(&mut reset), TaskStart::Run);
}

#[test]
fn a_task_ends_with_its_error_and_wakes_everybody() {
    let mut broken = new_state();
    assert!(fail_task(&mut broken, FlowTaskError::FinishedEarly, "finished early".to_string()));
    let failure = broken.check().unwrap_err();
    assert_eq!(failure.kind, FailureKind::ConnectionAborted);
    assert_eq!(failure.message, "finished early");
    let mut left = new_state();
    assert!(!fail_task(&mut left, FlowTaskError::PeerReset(4), "reset".to_string()));
    assert_eq!(left.check().unwrap_err().kind, FailureKind::ConnectionReset);

    let mut stopped = new_state();
    assert!(stopped.enqueue(&Bytes::from_static(b"kept")).unwrap().is_some());
    assert!(!stopped.request_flush().unwrap());
    assert_eq!(stopped.after_read(0, 0, false), None);
    end_task(&mut stopped, true);
    assert_eq!(stopped.retained(), (0, 0));
    let wakes = stopped.take_wakes();
    assert!(wakes.reader && wakes.writer);
    assert_eq!(stopped.check().unwrap_err().message, "QUICP host runtime stopped");
    let mut quiet = new_state();
    end_task(&mut quiet, false);
    assert!(quiet.check().is_ok());
    assert!(!quiet.request_reset(1));
}

#[test]
fn pending_flows_are_let_in_or_refused() {
    let plain = PendingFlow::ordinary(request(), settings());
    assert_eq!(plain.request().host, "example.com");
    assert_eq!(plain.request().port, 443);
    assert!(plain.initial_data().is_empty());
    let (flow, replies) = plain.accept().unwrap().after_store(Ok(())).unwrap();
    assert_eq!(replies, [Reply::Capabilities, Reply::Status(OpenStatus::Accepted)]);
    assert!(flow.nodelay());
    assert_eq!(flow.state().ack_pending(), 0);

    let refused = PendingFlow::ordinary(request(), settings());
    assert_eq!(
        refused.reject(OpenStatus::Refused(2)).unwrap(),
        [Reply::Capabilities, Reply::Status(OpenStatus::Refused(2)), Reply::Finish]
    );
    let wrong = PendingFlow::ordinary(request(), settings());
    assert_eq!(wrong.reject(OpenStatus::Accepted), Err(FlowError::InvalidRejectStatus));
}

#[test]
fn initial_bytes_are_paid_for_and_committed_first() {
    let mut budget = RecoveryMemoryBudget::new(1, 1 << 20);
    let charge = budget.reserve(5).unwrap();
    let early = PendingFlow::early(request(), Bytes::from_static(b"hello"), charge, settings());
    assert_eq!(early.initial_data(), b"hello");
    let mut accepting = early.accept().unwrap();
    assert_eq!(accepting.initial_data(), b"hello");
    assert_eq!(accepting.take_charge().unwrap().bytes, 5);
    let (flow, _) = accepting.after_store(Ok(())).unwrap();
    assert_eq!(flow.state().ack_pending(), 1);

    let charge = budget.reserve(5).unwrap();
    let full = PendingFlow::early(request(), Bytes::from_static(b"hello"), charge, settings());
    assert!(matches!(
        full.accept().unwrap().after_store(Err(RecoveryError::Capacity)),
        Err(FlowError::Accept(AcceptFailure::Recovery(RecoveryError::Capacity)))
    ));

    let charge = budget.reserve(5).unwrap();
    let mut narrow = settings();
    narrow.recovery.reassembly_buffer_bytes = 4;
    let large = PendingFlow::early(request(), Bytes::from_static(b"hello"), charge, narrow);
    assert!(matches!(large.accept(), Err(FlowError::Accept(AcceptFailure::Recovery(RecoveryError::FlowControl)))));
}

#[test]
fn a_malformed_exchange_is_a_breach() {
    assert!(FlowError::Session(SessionError::Wire).is_protocol_violation());
    assert!(FlowError::Read(ReadFailure::FinishedEarly).is_protocol_violation());
    assert!(!FlowError::Read(ReadFailure::Stream).is_protocol_violation());
    assert!(!FlowError::Session(SessionError::InvalidState).is_protocol_violation());
}

fn facts() -> BackendFacts {
    BackendFacts {
        datagram_enabled: true,
        adaptive_required: false,
        max_source_payload: 100,
        max_stream_payload: 100,
    }
}

fn one_chunk(state: &mut FlowState, bytes: &'static [u8]) -> (Outbound, u64, FlowTask) {
    assert!(state.enqueue(&Bytes::from_static(bytes)).unwrap().is_some());
    state.raise_peer_maximum(1000).unwrap();
    let mut task = FlowTask::new(true);
    let OutboundStep::SendSource { chunk, end } = task.prepare_outbound(state, facts()).unwrap() else {
        panic!("a datagram is sent first");
    };
    (chunk, end, task)
}

#[test]
fn lost_bytes_are_tried_harder_each_time() {
    let mut state = new_state();
    let (chunk, end, mut task) = one_chunk(&mut state, b"lost");
    let SourceStep::Keep(chunk) = task.after_source(&mut state, chunk, SourceEvent::Sent, false).unwrap() else {
        panic!("a sent chunk is kept");
    };
    assert!(task.after_kept(&mut state, end));
    assert!(!task.after_kept(&mut state, end));

    assert_eq!(task.begin_replay(facts(), false, 4), ReplayAction::Idle);
    assert_eq!(task.begin_replay(facts(), true, 4), ReplayAction::AskRepairBudget);
    assert_eq!(task.after_repair_budget(2), ReplayAction::SendRepairs(2));
    assert_eq!(task.after_repairs(RepairEvent::Sent(2), false), Ok(ReplayAction::RestartTimer));
    assert_eq!(task.begin_replay(facts(), true, 4), ReplayAction::SendSource(None));
    assert_eq!(task.after_source_replay(Some((0, SourceEvent::Blocked))), Ok(ReplayAction::Idle));
    assert_eq!(task.after_source_replay(Some((0, SourceEvent::Sent))), Ok(ReplayAction::Progress));
    assert_eq!(task.begin_replay(facts(), true, 4), ReplayAction::SendSource(Some(0)));
    assert_eq!(task.after_source_replay(None), Ok(ReplayAction::RestartTimer));
    assert_eq!(task.begin_replay(facts(), true, 4), ReplayAction::SendStream(None));
    assert_eq!(task.after_stream_replay(Some(chunk)), Ok(()));
    assert_eq!(task.begin_replay(facts(), true, 4), ReplayAction::Idle);

    assert!(task.choose_frame());
    let frame = task.current_frame().unwrap();
    assert!(matches!(&frame.content, FrameContent::StreamData { offset: 0, bytes } if &bytes[..] == b"lost"));
    assert_eq!(task.after_write(&mut state, 0, 8), Err(FlowTaskError::WriteZero));
    assert_eq!(task.after_write(&mut state, 3, 8), Ok(None));
    assert!(task.current_frame().is_some());
    assert_eq!(task.after_write(&mut state, 5, 5), Ok(None));
    assert!(task.current_frame().is_none());
    assert_eq!(task.after_stream_replay(None), Ok(()));
    assert_eq!(task.begin_replay(facts(), true, 4), ReplayAction::Idle);
}

#[test]
fn refused_datagrams_go_to_the_control_stream_unless_they_are_required() {
    let mut state = new_state();
    let (chunk, _, mut task) = one_chunk(&mut state, b"bytes");
    assert!(matches!(
        task.after_source(&mut state, chunk, SourceEvent::Blocked, false),
        Ok(SourceStep::Blocked)
    ));
    let OutboundStep::SendSource { chunk, .. } = task.prepare_outbound(&mut state, facts()).unwrap() else {
        panic!("the chunk waits again");
    };
    let Ok(SourceStep::SendStream(chunk)) = task.after_source(&mut state, chunk, SourceEvent::Refused, false) else {
        panic!("the control stream takes it");
    };
    assert_eq!(&chunk.bytes[..], b"bytes");

    let mut strict = new_state();
    let (chunk, _, mut task) = one_chunk(&mut strict, b"bytes");
    assert!(matches!(
        task.after_source(&mut strict, chunk, SourceEvent::Refused, true),
        Err(FlowTaskError::Datagram)
    ));
    assert_eq!(task.after_repairs(RepairEvent::Refused, true), Err(FlowTaskError::Datagram));
    assert_eq!(task.after_repairs(RepairEvent::Lost, false), Err(FlowTaskError::Datagram));
    assert_eq!(task.after_repairs(RepairEvent::Refused, false), Ok(ReplayAction::SendStream(None)));
    let mut gone = new_state();
    let (chunk, _, mut task) = one_chunk(&mut gone, b"bytes");
    assert!(matches!(
        task.after_source(&mut gone, chunk, SourceEvent::Lost, false),
        Err(FlowTaskError::Connection)
    ));
}

#[test]
fn acknowledgments_release_bytes_and_restart_the_search() {
    let mut state = new_state();
    let (_, end, mut task) = one_chunk(&mut state, b"four");
    task.after_kept(&mut state, end);
    assert_eq!(state.retained(), (4, 1));
    assert_eq!(task.after_repair_budget(0), ReplayAction::RestartTimer);
    assert!(!task.after_ack(&mut state, 4, 1, 0));
    assert_eq!(state.retained(), (0, 0));
    assert_eq!(task.begin_replay(facts(), true, 0), ReplayAction::Idle);
}

#[test]
fn feedback_goes_out_when_nothing_else_waits() {
    let mut state = new_state();
    let mut task = FlowTask::new(true);
    task.queue_feedback(Some((7, vec![(9, 12)])), Some(50));
    task.queue_stream_data(0, Bytes::from_static(b"x"), 0);
    assert!(task.choose_frame());
    assert!(matches!(task.current_frame().unwrap().content, FrameContent::StreamData { .. }));
    assert_eq!(task.after_write(&mut state, 3, 3), Ok(None));
    assert!(task.choose_frame());
    assert!(matches!(
        &task.current_frame().unwrap().content,
        FrameContent::Ack { contiguous: 7, ranges } if ranges[..] == [(9, 12)]
    ));
    assert_eq!(task.after_write(&mut state, 3, 3), Ok(Some(7)));
    assert!(task.choose_frame());
    assert!(matches!(task.current_frame().unwrap().content, FrameContent::MaxOffset(50)));
    assert_eq!(task.after_write(&mut state, 3, 3), Ok(None));
    assert!(!task.choose_frame());
}

#[test]
fn the_end_is_announced_once_the_peer_has_everything() {
    let mut state = new_state();
    let mut task = FlowTask::new(true);
    assert!(!task.queue_terminal_frames(&state, 0));
    assert!(!state.request_shutdown().unwrap());
    assert!(task.queue_terminal_frames(&state, 4));
    assert!(!task.choose_frame());
    assert!(!task.queue_terminal_frames(&state, 0));
    assert!(!task.finish_send_if_ready(&mut state, 0));
    assert!(task.choose_frame());
    assert!(matches!(task.current_frame().unwrap().content, FrameContent::Fin(0)));
    assert_eq!(task.after_write(&mut state, 2, 2), Ok(None));
    assert!(!task.finish_send_if_ready(&mut state, 0));
    assert!(state.request_shutdown().unwrap());
    state.commit_final_offset(0);
    assert_eq!(state.take_feedback(true), (true, Some(256 * 1024)));
    assert!(task.finish_send_if_ready(&mut state, 0));
    assert!(!task.finish_send_if_ready(&mut state, 0));
}
