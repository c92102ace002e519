//! Flows that a peer asks for, until they are let in or refused.
use crate::config::transport::RecoveryConfig;
use crate::flow::admission;
use crate::flow::admission::{AcceptFailure, FlowError, OpenStatus};
use crate::flow::handle::{HandleModel, QuicpFlow};
use crate::flow::state;
use crate::flow::state::{FlowModel, FlowState};
use crate::recovery::{RecoveryCharge, RecoveryError};
use crate::storage;
use bytes::Bytes;
use vstd::prelude::*;

verus! {

/// What a peer asks for.
#[derive(Debug)]
pub struct OpenRequest {
    /// The canonical name of the host.
    pub host: String,
    /// The port.
    pub port: u16,
}

/// What both ends agreed on for the flows of a connection.
#[derive(Clone, Copy, Debug, PartialEq, Eq, Structural)]
pub struct FlowSettings {
    /// The recovery limits.
    pub recovery: RecoveryConfig,
    /// The most chunks that a flow keeps for its peer.
    pub replay_chunk_limit: usize,
    /// The most bytes that a handle buffers.
    pub flow_buffer_bytes: usize,
    /// Whether a handle hands its bytes on at once.
    pub default_nodelay: bool,
}

/// A server-side flow whose OPEN has been parsed but not yet admitted.
#[derive(Debug)]
pub struct PendingFlow {
    request: OpenRequest,
    initial: Bytes,
    initial_charge: Option<RecoveryCharge>,
    settings: FlowSettings,
}

/// The content of a pending flow.
pub ghost struct PendingModel {
    /// What the peer asks for.
    pub request: OpenRequest,
    /// The bytes that it sent along.
    pub initial: Seq<u8>,
    /// The memory that was set aside for them.
    pub charge: Option<RecoveryCharge>,
    /// What both ends agreed on.
    pub settings: FlowSettings,
}

impl View for PendingFlow {
    type V = PendingModel;

    closed spec fn view(&self) -> PendingModel {
        PendingModel {
            request: self.request,
            initial: storage::contents(self.initial),
            charge: self.initial_charge,
            settings: self.settings,
        }
    }
}

/// What is sent to the peer in answer to its request.
#[derive(Clone, Copy, Debug, PartialEq, Eq, Structural)]
pub enum Reply {
    /// This end's capabilities.
    Capabilities,
    /// The answer.
    Status(OpenStatus),
    /// The end of the stream.
    Finish,
}

/// A flow that is being let in.
#[derive(Debug)]
pub struct AcceptingFlow {
    state: FlowState,
    initial: Bytes,
    initial_charge: Option<RecoveryCharge>,
    settings: FlowSettings,
}

/// The content of a flow that is being let in.
pub ghost struct AcceptingModel {
    /// The state that it starts with.
    pub state: FlowModel,
    /// The bytes that are to be stored before anything is sent.
    pub initial: Seq<u8>,
    /// The memory that was set aside for them.
    pub charge: Option<RecoveryCharge>,
    /// What both ends agreed on.
    pub settings: FlowSettings,
}

impl View for AcceptingFlow {
    type V = AcceptingModel;

    closed spec fn view(&self) -> AcceptingModel {
        AcceptingModel {
            state: self.state@,
            initial: storage::contents(self.initial),
            charge: self.initial_charge,
            settings: self.settings,
        }
    }
}

/// The state that a flow starts with.
pub open spec fn fresh(settings: FlowSettings, initial_send_offset: u64) -> FlowModel {
    FlowModel {
        outbound: Seq::empty(),
        retained_bytes: 0,
        retained_chunks: 0,
        replay_limit: settings.recovery.replay_buffer_bytes as int,
        replay_chunk_limit: settings.replay_chunk_limit as int,
        next_send_offset: initial_send_offset,
        receive_final_offset: None,
        receive_window: settings.recovery.reassembly_buffer_bytes as u64,
        max_receive_offset: settings.recovery.reassembly_buffer_bytes as u64,
        credit_dirty: true,
        ack_pending: 0,
        reader_waits: false,
        writer_waits: false,
        task_waits: false,
        flush_target: None,
        flushed_offset: initial_send_offset,
        peer_max_offset: 0,
        shutdown_target: None,
        shutdown_done: false,
        reset: None,
        locally_reset: false,
        handle_dropped: false,
        task_stopped: false,
        error: None,
        wakes: state::nobody(),
    }
}

/// Why a pending flow cannot be let in, if it cannot: bytes that came along have to be paid
/// for, and have to fit the window.
pub open spec fn accept_refusal(pending: PendingModel) -> Option<FlowError> {
    if pending.initial.len() == 0 {
        None
    } else if pending.charge is None {
        Some(FlowError::Accept(AcceptFailure::Recovery(RecoveryError::Capacity)))
    } else if pending.initial.len() > pending.settings.recovery.reassembly_buffer_bytes {
        Some(FlowError::Accept(AcceptFailure::Recovery(RecoveryError::FlowControl)))
    } else {
        None
    }
}

impl PendingFlow {
    /// A handle can buffer a byte.
    pub closed spec fn wf(&self) -> bool {
        0 < self.settings.flow_buffer_bytes <= isize::MAX
    }

    /// A request without initial bytes.
    pub fn ordinary(request: OpenRequest, settings: FlowSettings) -> (pending: Self)
        requires
            0 < settings.flow_buffer_bytes <= isize::MAX,
        ensures
            pending.wf(),
            pending@ == (PendingModel { request, initial: Seq::empty(), charge: None, settings }),
    {
        let empty: Vec<u8> = Vec::new();
        PendingFlow { request, initial: storage::from_vec(empty), initial_charge: None, settings }
    }

    /// A request with initial bytes, and the memory that was set aside for them.
    pub fn early(request: OpenRequest, initial: Bytes, charge: RecoveryCharge, settings: FlowSettings) -> (pending: Self)
        requires
            0 < settings.flow_buffer_bytes <= isize::MAX,
        ensures
            pending.wf(),
            pending@ == (PendingModel {
                request,
                initial: storage::contents(initial),
                charge: Some(charge),
                settings,
            }),
    {
        PendingFlow { request, initial, initial_charge: Some(charge), settings }
    }

    /// Returns the validated OPEN request awaiting a server decision.
    #[must_use]
    pub fn request(&self) -> (request: &OpenRequest)
        ensures
            *request == self@.request,
    {
        &self.request
    }

    /// Returns replay-safe initial bytes received with `EARLY_OPEN`.
    #[must_use]
    pub fn initial_data(&self) -> (bytes: &[u8])
        ensures
            bytes@ == self@.initial,
    {
        storage::as_slice(&self.initial)
    }

    /// Lets the flow in, unless its initial bytes cannot be committed.
    pub fn accept(self) -> (result: Result<AcceptingFlow, FlowError>)
        requires
            self.wf(),
        ensures
            match accept_refusal(self@) {
                Some(error) => result == Err::<AcceptingFlow, FlowError>(error),
                None => result matches Ok(accepting) && accepting.wf() && accepting@ == (AcceptingModel {
                    state: fresh(self@.settings, 0),
                    initial: self@.initial,
                    charge: self@.charge,
                    settings: self@.settings,
                }),
            },
    {
        let state = FlowState::new(self.settings.recovery, self.settings.replay_chunk_limit, 0);
        let length: usize = storage::as_slice(&self.initial).len();
        if length != 0 {
            match admission::check_accept(length, self.initial_charge.is_some()) {
                Err(error) => return Err(error),
                Ok(()) => {},
            }
            match state.admit_bytes(0, length) {
                Err(error) => return Err(FlowError::Accept(AcceptFailure::Recovery(error))),
                Ok(_) => {},
            }
        }
        Ok(
            AcceptingFlow {
                state,
                initial: self.initial,
                initial_charge: self.initial_charge,
                settings: self.settings,
            },
        )
    }

    /// Refuses the flow with a terminal status. What is sent is told.
    pub fn reject(self, status: OpenStatus) -> (result: Result<Vec<Reply>, FlowError>)
        ensures
            if status == OpenStatus::Accepted {
                result == Err::<Vec<Reply>, FlowError>(FlowError::InvalidRejectStatus)
            } else {
                result matches Ok(replies) && replies@ == seq![
                    Reply::Capabilities,
                    Reply::Status(status),
                    Reply::Finish,
                ]
            },
    {
        match admission::check_reject(status) {
            Err(error) => Err(error),
            Ok(()) => {
                let mut replies: Vec<Reply> = Vec::new();
                replies.push(Reply::Capabilities);
                replies.push(Reply::Status(status));
                replies.push(Reply::Finish);
                Ok(replies)
            },
        }
    }
}

/// The state of a flow once the bytes that came along are stored.
pub open spec fn started(accepting: AcceptingModel) -> FlowModel {
    if accepting.initial.len() == 0 {
        accepting.state
    } else {
        state::record_stored(accepting.state, accepting.initial.len() as u64, false)
    }
}

impl AcceptingFlow {
    /// The state is well formed, the initial bytes fit the window, and a handle can buffer a
    /// byte.
    pub closed spec fn wf(&self) -> bool {
        &&& self.state.wf()
        &&& 0 < self.settings.flow_buffer_bytes <= isize::MAX
        &&& storage::contents(self.initial).len() <= u64::MAX
    }

    /// The bytes that are to be stored before anything is sent.
    pub fn initial_data(&self) -> (bytes: &[u8])
        ensures
            bytes@ == self@.initial,
    {
        storage::as_slice(&self.initial)
    }

    /// Hands over the memory that was set aside for them.
    pub fn take_charge(&mut self) -> (charge: Option<RecoveryCharge>)
        requires
            old(self).wf(),
        ensures
            final(self).wf(),
            charge == old(self)@.charge,
            final(self)@ == (AcceptingModel { charge: None, ..old(self)@ }),
    {
        self.initial_charge.take()
    }

    /// Goes on once the initial bytes were stored, or could not be. What is sent is told,
    /// and the flow is open once it is.
    pub fn after_store(self, stored: Result<(), RecoveryError>) -> (result: Result<(QuicpFlow, Vec<Reply>), FlowError>)
        requires
            self.wf(),
        ensures
            match stored {
                Err(error) if self@.initial.len() > 0 => result == Err::<(QuicpFlow, Vec<Reply>), FlowError>(
                    FlowError::Accept(AcceptFailure::Recovery(error)),
                ),
                _ => {
                    &&& result matches Ok((flow, replies))
                    &&& flow.wf()
                    &&& flow@ == (HandleModel {
                        state: started(self@),
                        buffer: Seq::empty(),
                        nodelay: self@.settings.default_nodelay,
                        limit: self@.settings.flow_buffer_bytes as int,
                    })
                    &&& replies@ == seq![Reply::Capabilities, Reply::Status(OpenStatus::Accepted)]
                },
            },
    {
        let length: usize = storage::as_slice(&self.initial).len();
        let mut state = self.state;
        if length != 0 {
            match stored {
                Err(error) => return Err(FlowError::Accept(AcceptFailure::Recovery(error))),
                Ok(()) => state.commit_bytes(length as u64, false),
            }
        }
        let mut replies: Vec<Reply> = Vec::new();
        replies.push(Reply::Capabilities);
        replies.push(Reply::Status(OpenStatus::Accepted));
        let flow = QuicpFlow::new(self.settings.flow_buffer_bytes, self.settings.default_nodelay, state);
        Ok((flow, replies))
    }
}

/// The answer of the end that is asked is what the end that asks waits for: an accepted flow
/// opens there, and a refused one does not.
pub proof fn law_answer_reaches_the_opener(status: OpenStatus)
    ensures
        admission::open_step(
            admission::OpenStage::AwaitCapabilities,
            admission::AdmissionFrame::Capabilities { negotiated: true },
        ) == Ok::<admission::OpenStage, FlowError>(admission::OpenStage::AwaitStatus),
        admission::open_step(admission::OpenStage::AwaitStatus, admission::AdmissionFrame::Status(status)) == (
        if status == OpenStatus::Accepted {
            Ok::<admission::OpenStage, FlowError>(admission::OpenStage::Opened)
        } else {
            Err(FlowError::Rejected(status))
        }),
{
}

/// The bytes that came along with an accepted request are one record that waits for its
/// acknowledgment. They leave the end of the flow open, and the window as it was.
pub proof fn law_initial_bytes_are_acknowledged(accepting: AcceptingModel)
    requires
        accepting.state == fresh(accepting.settings, 0),
        0 < accepting.initial.len() <= accepting.settings.recovery.reassembly_buffer_bytes,
    ensures
        started(accepting).ack_pending == 1,
        started(accepting).receive_final_offset is None,
        started(accepting).max_receive_offset == accepting.state.max_receive_offset,
{
}

}
