//! Flows: the state between a handle and its control task, writing, admission, control frames.
use bytes::{Bytes, BytesMut};
use quicp::config::transport::RecoveryConfig;
use quicp::flow::admission::{
    check_accept, check_early_open, check_reject, AcceptFailure, AdmissionFrame, FlowError, OpenStage, OpenStatus,
    SessionError,
};
use quicp::flow::control::{
    control_frame_length, control_header_length, control_input_limit, early_open_frame_limit, MAX_EARLY_OPEN_OVERHEAD,
};
use quicp::flow::handle::{after_initial_write, write_all_initial, Completion, InitialStep, QuicpFlow, ReadStep};
use quicp::flow::state::{FailureKind, FlowState, LOGICAL_ACK_THRESHOLD, MAX_WIRE_OFFSET};
use quicp::flow::task::{ack_due, after_turn, BackendFacts, FlowTask, FlowTaskError, OutboundStep, TurnStep};
use quicp::flow::write::{poll_buffered_write, WriteOutcome};
use quicp::recovery::RecoveryError;

const ABORT: u64 = 1;

fn test_state() -> FlowState {
    FlowState::new(RecoveryConfig::default(), 4096, 0)
}

#[test]
fn full_delayed_buffer_is_enqueued_by_the_completing_write() {
    let mut state = test_state();
    let mut send_buffer = BytesMut::new();
    let limit = RecoveryConfig::default().replay_buffer_bytes as usize;
    assert!(state.enqueue(&Bytes::from(vec![0; limit])).unwrap().is_some());
    let held = state.take_outbound().expect("the chunk that fills the buffer");
    assert!(matches!(
        poll_buffered_write(&mut send_buffer, false, 4, &mut state, b"full"),
        WriteOutcome::Pending
    ));
    assert!(send_buffer.is_empty());
    state.release(held.bytes.len(), 1);

    assert!(matches!(
        poll_buffered_write(&mut send_buffer, false, 4, &mut state, b"full"),
        WriteOutcome::Accepted(4)
    ));
    assert!(send_buffer.is_empty());
    assert_eq!(state.take_outbound().unwrap().bytes, Bytes::from_static(b"full"));
}

#[test]
fn nodelay_write_surfaces_known_terminal_states() {
    let mut reset = test_state();
    assert!(reset.request_reset(ABORT));
    let mut reset_buffer = BytesMut::new();
    let WriteOutcome::Failed(error) = poll_buffered_write(&mut reset_buffer, true, 4, &mut reset, b"x") else {
        panic!("reset write succeeded");
    };
    assert_eq!(error.kind, FailureKind::ConnectionAborted);

    let mut shutdown = test_state();
    assert!(matches!(shutdown.request_shutdown(), Ok(false)));
    let mut shutdown_buffer = BytesMut::new();
    let WriteOutcome::Failed(error) = poll_buffered_write(&mut shutdown_buffer, true, 4, &mut shutdown, b"x") else {
        panic!("shutdown write succeeded");
    };
    assert_eq!(error.kind, FailureKind::BrokenPipe);

    let mut failed = test_state();
    failed.fail(FailureKind::ConnectionAborted, String::from("task failed"));
    let mut failed_buffer = BytesMut::new();
    let WriteOutcome::Failed(error) = poll_buffered_write(&mut failed_buffer, true, 4, &mut failed, b"x") else {
        panic!("failed-task write succeeded");
    };
    assert_eq!(error.kind, FailureKind::ConnectionAborted);
}

#[test]
fn crossed_fin_gap_waits_for_contiguous_data_and_written_ack() {
    let mut state = test_state();
    let end = state.admit_bytes(4, b"tail".len()).unwrap();
    state.commit_bytes(end, false);
    state.admit_final_offset(8).unwrap();
    state.commit_final_offset(8);
    assert!(state.take_feedback(true).0);
    assert!(!state.final_ack_written(0, 8));

    let end = state.admit_bytes(0, b"head".len()).unwrap();
    state.commit_bytes(end, false);
    assert!(!state.final_ack_written(8, 8));
    assert!(state.take_feedback(true).0);
    assert!(state.final_ack_written(8, 8));
}

/// A number of variable length, the longest form where it is large.
fn number(value: u64, frame: &mut Vec<u8>) {
    if value < 64 {
        frame.push(value as u8);
    } else if value < 16_384 {
        frame.extend_from_slice(&(value as u16 | 0x4000).to_be_bytes());
    } else {
        frame.extend_from_slice(&(value | 0xc000_0000_0000_0000).to_be_bytes());
    }
}

fn frame(kind: u8, content: &[u8]) -> Vec<u8> {
    let mut frame = vec![kind];
    number(content.len() as u64, &mut frame);
    frame.extend_from_slice(content);
    frame
}

#[test]
fn control_limit_uses_negotiated_payload_not_local_write_buffer() {
    let peer_stream_payload = 4096;
    let limit = control_input_limit(peer_stream_payload, 32);
    let mut content = Vec::new();
    number(MAX_WIRE_OFFSET, &mut content);
    content.push(0);
    content.extend_from_slice(&vec![0; peer_stream_payload]);
    let stream = frame(4, &content);
    assert!(stream.len() <= limit);
    assert!(limit > 64, "a smaller local write buffer is irrelevant");

    let base = MAX_WIRE_OFFSET - 65;
    let mut content = Vec::new();
    number(base, &mut content);
    number(32, &mut content);
    for index in 0..32 {
        let start = base + index * 2 + 1;
        number(start, &mut content);
        number(1, &mut content);
    }
    let ack = frame(5, &content);
    assert!(ack.len() <= control_input_limit(1, 32));
}

#[test]
fn control_lengths_follow_the_frame_header() {
    assert_eq!(control_header_length(0), 2);
    assert_eq!(control_header_length(64), 3);
    assert_eq!(control_header_length(128), 5);
    assert_eq!(control_header_length(192), 9);
    assert_eq!(control_frame_length(&frame(1, &[7; 5])[..2], 7), Some(7));
    assert_eq!(control_frame_length(&frame(1, &[7; 5])[..2], 6), None);
    assert_eq!(control_frame_length(&frame(1, &[7; 100])[..3], 1000), Some(103));
    assert_eq!(control_input_limit(usize::MAX, 1), usize::MAX);
    assert_eq!(control_input_limit(100, 2), 116);
}

#[test]
fn reset_is_terminal_and_discards_pending_writes() {
    let mut state = test_state();
    assert!(state.enqueue(&Bytes::from_static(b"pending")).unwrap().is_some());
    assert!(state.request_reset(ABORT));
    assert!(state.outbound_is_empty());
    assert_eq!(state.retained(), (0, 0));
    assert_eq!(
        state.enqueue(&Bytes::from_static(b"later")).unwrap_err().kind,
        FailureKind::ConnectionAborted
    );
    assert_eq!(state.begin_turn(), (Some(ABORT), false));
}

#[test]
fn stopped_task_rejects_a_new_reset_request() {
    let mut state = test_state();
    state.mark_task_stopped();
    assert!(!state.request_reset(ABORT));
}

#[test]
fn source_wakes_ack_task_only_for_timer_and_threshold() {
    let mut state = test_state();
    let mut wakes = 0;
    state.begin_turn();
    state.take_wakes();
    let end = state.admit_bytes(0, 1).unwrap();
    state.commit_bytes(end, false);
    wakes += usize::from(state.take_wakes().task);
    assert_eq!(wakes, 1);

    state.begin_turn();
    for offset in 1..u64::from(LOGICAL_ACK_THRESHOLD) {
        let end = state.admit_bytes(offset, 1).unwrap();
        state.commit_bytes(end, false);
        wakes += usize::from(state.take_wakes().task);
    }
    assert_eq!(wakes, 2);
}

/// The most records that a replay buffer of 512 bytes keeps.
const REPLAY_CHUNK_LIMIT: usize = 8;

#[test]
fn flow_bounds_retained_record_metadata() {
    let recovery = RecoveryConfig { replay_buffer_bytes: 512, ..RecoveryConfig::default() };
    let mut state = FlowState::new(recovery, REPLAY_CHUNK_LIMIT, 0);
    for _ in 0..REPLAY_CHUNK_LIMIT {
        assert!(state.enqueue(&Bytes::from_static(b"x")).unwrap().is_some());
    }
    assert!(state.enqueue(&Bytes::from_static(b"x")).unwrap().is_none());
}

#[test]
fn final_offset_cannot_exceed_receive_credit() {
    let state = test_state();
    let maximum = u64::from(RecoveryConfig::default().reassembly_buffer_bytes);
    assert_eq!(state.admit_final_offset(maximum), Ok(()));
    assert_eq!(state.admit_final_offset(maximum + 1), Err(RecoveryError::FlowControl));
}

#[test]
fn early_open_limit_is_bound_to_the_configured_flow_buffer() {
    assert_eq!(early_open_frame_limit(1024), Some(1024 + MAX_EARLY_OPEN_OVERHEAD));
    assert_eq!(early_open_frame_limit(usize::MAX), None);
}

#[test]
fn received_bytes_stay_within_the_credit() {
    let mut state = test_state();
    let window = u64::from(RecoveryConfig::default().reassembly_buffer_bytes);
    assert_eq!(state.admit_bytes(window, 1), Err(RecoveryError::FlowControl));
    assert_eq!(state.admit_bytes(u64::MAX, 1), Err(RecoveryError::OffsetOverflow));
    assert_eq!(state.take_feedback(false), (false, Some(window)));
    assert_eq!(state.take_feedback(false), (false, None));
    assert_eq!(state.after_read(100_000, 200_000, false), Some(100_000));
    let raised = state.take_feedback(false).1.expect("more credit");
    assert!(raised > window);
    assert_eq!(state.after_read(0, 200_000, false), None);
    assert_eq!(state.after_read(0, 200_000, true), Some(0));
}

#[test]
fn writes_go_out_in_order_and_within_the_peers_credit() {
    let mut state = test_state();
    let mut buffer = BytesMut::new();
    for part in [&b"ab"[..], b"cdef", b"g"] {
        let WriteOutcome::Accepted(count) = poll_buffered_write(&mut buffer, true, 8, &mut state, part) else {
            panic!("write refused");
        };
        assert_eq!(count, part.len());
    }
    let facts = BackendFacts {
        datagram_enabled: true,
        adaptive_required: false,
        max_source_payload: 3,
        max_stream_payload: 100,
    };
    let mut task = FlowTask::new(true);
    assert!(matches!(task.prepare_outbound(&mut state, facts), Ok(OutboundStep::Idle)));
    state.raise_peer_maximum(6).unwrap();
    let mut sent = Vec::new();
    while let OutboundStep::SendSource { chunk, end } = task.prepare_outbound(&mut state, facts).unwrap() {
        assert_eq!(chunk.offset as usize, sent.len());
        assert!(end <= 6 && chunk.bytes.len() <= 3);
        sent.extend_from_slice(&chunk.bytes);
        task.after_kept(&mut state, end);
    }
    assert_eq!(sent, b"abcdef");
    assert!(!state.outbound_is_empty());
}

#[test]
fn handle_reads_writes_and_half_closes() {
    let mut flow = QuicpFlow::new(8, false, test_state());
    assert!(!flow.nodelay());
    assert!(matches!(flow.poll_write(b"abc"), WriteOutcome::Accepted(3)));
    assert!(matches!(flow.poll_write(b"0123456789"), WriteOutcome::Accepted(5)));
    assert!(matches!(flow.poll_flush(), Completion::Pending));
    assert!(matches!(flow.poll_read(0), ReadStep::Done));
    assert!(matches!(flow.poll_read(10), ReadStep::Take));
    assert_eq!(flow.finish_read(4, 4, false), Some(4));
    assert_eq!(flow.finish_read(0, 4, false), None);
    assert!(matches!(flow.poll_shutdown(), Completion::Pending));
    flow.set_nodelay(true);
    assert!(matches!(flow.poll_write(b"x"), WriteOutcome::Failed(_)));

    let mut other = QuicpFlow::new(8, true, test_state());
    assert_eq!(other.reset(7), Ok(()));
    let WriteOutcome::Failed(failure) = other.poll_write(b"x") else {
        panic!("reset write succeeded");
    };
    assert_eq!(failure.kind, FailureKind::ConnectionAborted);
    assert!(matches!(other.poll_read(1), ReadStep::Failed(_)));
    let mut stopped = QuicpFlow::new(8, true, test_state());
    stopped.state_mut().mark_task_stopped();
    assert_eq!(stopped.reset(7), Err(FlowError::Reset));
}

#[test]
fn initial_bytes_are_written_to_their_end() {
    assert_eq!(write_all_initial(0), InitialStep::Flush);
    assert_eq!(write_all_initial(5), InitialStep::Write(0));
    assert_eq!(after_initial_write(5, 0, 2), Ok(InitialStep::Write(2)));
    assert_eq!(after_initial_write(5, 2, 3), Ok(InitialStep::Flush));
    assert_eq!(after_initial_write(5, 2, 0), Err(FlowError::Write));
}

#[test]
fn flows_open_only_on_an_accepting_status() {
    let start = OpenStage::AwaitCapabilities;
    let agreed = AdmissionFrame::Capabilities { negotiated: true };
    let status = start.advance(agreed).expect("capabilities");
    assert_eq!(status.advance(AdmissionFrame::Status(OpenStatus::Accepted)), Ok(OpenStage::Opened));
    assert_eq!(
        status.advance(AdmissionFrame::Status(OpenStatus::Refused(3))),
        Err(FlowError::Rejected(OpenStatus::Refused(3)))
    );
    assert_eq!(
        start.advance(AdmissionFrame::Capabilities { negotiated: false }),
        Err(FlowError::Session(SessionError::InvalidState))
    );
    assert_eq!(start.advance(AdmissionFrame::Other), Err(FlowError::Session(SessionError::InvalidState)));
    assert_eq!(check_early_open(true, 10, 10), Ok(()));
    assert_eq!(check_early_open(false, 10, 10), Err(FlowError::Session(SessionError::PolicyRejected)));
    assert_eq!(check_early_open(true, 0, 10), Err(FlowError::Session(SessionError::PolicyRejected)));
    assert_eq!(check_early_open(true, 11, 10), Err(FlowError::Session(SessionError::PolicyRejected)));
    assert_eq!(check_accept(0, false), Ok(()));
    assert_eq!(check_accept(3, false), Err(FlowError::Accept(AcceptFailure::Recovery(RecoveryError::Capacity))));
    assert_eq!(check_reject(OpenStatus::Accepted), Err(FlowError::InvalidRejectStatus));
    assert_eq!(check_reject(OpenStatus::Refused(1)), Ok(()));
}

#[test]
fn acknowledgments_are_due_at_the_threshold_or_the_timer() {
    assert!(!ack_due(0, true));
    assert!(ack_due(1, true));
    assert!(!ack_due(LOGICAL_ACK_THRESHOLD - 1, false));
    assert!(ack_due(LOGICAL_ACK_THRESHOLD, false));
    assert_eq!(after_turn(0, false), TurnStep::Wait);
    assert_eq!(after_turn(0, true), TurnStep::Again);
    assert!(FlowTaskError::Codec.is_protocol_violation());
    assert!(!FlowTaskError::Connection.is_protocol_violation());
}
