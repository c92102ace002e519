//! The bounded OPEN/STATUS exchange, and what lets a flow in.
use crate::recovery::RecoveryError;
use vstd::prelude::*;

verus! {

/// The answer to an OPEN request.
#[derive(Clone, Copy, Debug, PartialEq, Eq, Structural)]
pub enum OpenStatus {
    /// The flow is accepted.
    Accepted,
    /// The flow is refused, for the reason with this code.
    Refused(u8),
}

/// Why the bounded OPEN/STATUS exchange failed.
#[derive(Clone, Copy, Debug, PartialEq, Eq, Structural)]
pub enum SessionError {
    /// A frame of the exchange is malformed.
    Wire,
    /// A frame came that has no place there.
    InvalidState,
    /// The local policy does not allow the flow.
    PolicyRejected,
    /// The peer did not authenticate.
    PeerUnauthenticated,
}

/// Why a flow could not be accepted.
#[derive(Clone, Copy, Debug, PartialEq, Eq, Structural)]
pub enum AcceptFailure {
    /// The backend gave no stream.
    Stream,
    /// Waiting for the peer to authenticate failed.
    Authentication,
    /// The initial bytes could not be committed.
    Recovery(RecoveryError),
}

/// Why flow bytes could not be read.
#[derive(Clone, Copy, Debug, PartialEq, Eq, Structural)]
pub enum ReadFailure {
    /// The backend failed.
    Stream,
    /// The stream ended inside a frame of the exchange.
    FinishedEarly,
}

/// Flow opening, acceptance, I/O, reset, and session-protocol errors.
#[derive(Clone, Copy, Debug, PartialEq, Eq, Structural)]
pub enum FlowError {
    /// Opening a backend bidirectional stream failed.
    Open,
    /// Accepting a flow failed.
    Accept(AcceptFailure),
    /// Reading flow bytes failed.
    Read(ReadFailure),
    /// Writing flow bytes failed.
    Write,
    /// Resetting the flow failed.
    Reset,
    /// The peer rejected the OPEN request with a protocol status.
    Rejected(OpenStatus),
    /// A caller tried to reject a flow with the success status.
    InvalidRejectStatus,
    /// The bounded OPEN/STATUS exchange failed.
    Session(SessionError),
    /// A replay-safe attempt failed token or replay admission.
    Replay,
}

/// Whether an error of the exchange is the peer's breach of the protocol.
pub open spec fn breach(error: FlowError) -> bool {
    error == FlowError::Session(SessionError::Wire) || error == FlowError::Read(ReadFailure::FinishedEarly)
}

impl FlowError {
    /// Whether the error is the peer's breach of the protocol, for which both directions of
    /// the stream are reset.
    pub fn is_protocol_violation(&self) -> (violation: bool)
        ensures
            violation == breach(*self),
    {
        match self {
            FlowError::Session(SessionError::Wire) => true,
            FlowError::Read(ReadFailure::FinishedEarly) => true,
            _ => false,
        }
    }
}

/// A frame of the exchange, as far as the exchange looks at it.
#[derive(Clone, Copy, Debug, PartialEq, Eq, Structural)]
pub enum AdmissionFrame {
    /// Capabilities, and whether they agree with this end's.
    Capabilities {
        /// Whether they agree.
        negotiated: bool,
    },
    /// A request for a flow.
    Open,
    /// A request for a flow with initial bytes.
    EarlyOpen,
    /// An answer to a request.
    Status(OpenStatus),
    /// Any other frame.
    Other,
}

/// Where the exchange is, for the end that opens a flow.
#[derive(Clone, Copy, Debug, PartialEq, Eq, Structural)]
pub enum OpenStage {
    /// The peer's capabilities come next.
    AwaitCapabilities,
    /// The peer's answer comes next.
    AwaitStatus,
    /// The flow is open.
    Opened,
}

/// What a frame does to the exchange of the end that opens a flow.
pub open spec fn open_step(stage: OpenStage, frame: AdmissionFrame) -> Result<OpenStage, FlowError> {
    match (stage, frame) {
        (OpenStage::AwaitCapabilities, AdmissionFrame::Capabilities { negotiated }) => if negotiated {
            Ok(OpenStage::AwaitStatus)
        } else {
            Err(FlowError::Session(SessionError::InvalidState))
        },
        (OpenStage::AwaitStatus, AdmissionFrame::Status(status)) => if status == OpenStatus::Accepted {
            Ok(OpenStage::Opened)
        } else {
            Err(FlowError::Rejected(status))
        },
        _ => Err(FlowError::Session(SessionError::InvalidState)),
    }
}

impl OpenStage {
    /// Takes a frame of the peer.
    pub fn advance(self, frame: AdmissionFrame) -> (result: Result<OpenStage, FlowError>)
        ensures
            result == open_step(self, frame),
    {
        match (self, frame) {
            (OpenStage::AwaitCapabilities, AdmissionFrame::Capabilities { negotiated }) => if negotiated {
                Ok(OpenStage::AwaitStatus)
            } else {
                Err(FlowError::Session(SessionError::InvalidState))
            },
            (OpenStage::AwaitStatus, AdmissionFrame::Status(status)) => if status == OpenStatus::Accepted {
                Ok(OpenStage::Opened)
            } else {
                Err(FlowError::Rejected(status))
            },
            _ => Err(FlowError::Session(SessionError::InvalidState)),
        }
    }
}

/// Whether a flow may be opened with initial bytes: the policy allows it, and there are
/// some that fit.
pub fn check_early_open(authorized: bool, initial_length: usize, flow_buffer_bytes: usize) -> (result: Result<
    (),
    FlowError,
>)
    ensures
        result == (if authorized && 0 < initial_length <= flow_buffer_bytes {
            Ok::<(), FlowError>(())
        } else {
            Err(FlowError::Session(SessionError::PolicyRejected))
        }),
{
    if !authorized || initial_length == 0 || initial_length > flow_buffer_bytes {
        Err(FlowError::Session(SessionError::PolicyRejected))
    } else {
        Ok(())
    }
}

/// Where the exchange is, for the end that is asked for a flow.
#[derive(Clone, Copy, Debug, PartialEq, Eq, Structural)]
pub enum AcceptStage {
    /// The peer's capabilities come next.
    AwaitCapabilities,
    /// The peer's request comes next.
    AwaitOpen,
    /// There is a request.
    Requested,
    /// There is a request with initial bytes.
    EarlyRequested,
}

/// What a frame does to the exchange of the end that is asked for a flow. A request with
/// initial bytes has a place only where those are taken.
pub open spec fn accept_step(stage: AcceptStage, frame: AdmissionFrame, takes_early: bool) -> Result<
    AcceptStage,
    FlowError,
> {
    match (stage, frame) {
        (AcceptStage::AwaitCapabilities, AdmissionFrame::Capabilities { negotiated }) => if negotiated {
            Ok(AcceptStage::AwaitOpen)
        } else {
            Err(FlowError::Session(SessionError::InvalidState))
        },
        (AcceptStage::AwaitOpen, AdmissionFrame::Open) => Ok(AcceptStage::Requested),
        (AcceptStage::AwaitOpen, AdmissionFrame::EarlyOpen) => if takes_early {
            Ok(AcceptStage::EarlyRequested)
        } else {
            Err(FlowError::Session(SessionError::InvalidState))
        },
        _ => Err(FlowError::Session(SessionError::InvalidState)),
    }
}

impl AcceptStage {
    /// Takes a frame of the peer.
    pub fn advance(self, frame: AdmissionFrame, takes_early: bool) -> (result: Result<AcceptStage, FlowError>)
        ensures
            result == accept_step(self, frame, takes_early),
    {
        match (self, frame) {
            (AcceptStage::AwaitCapabilities, AdmissionFrame::Capabilities { negotiated }) => if negotiated {
                Ok(AcceptStage::AwaitOpen)
            } else {
                Err(FlowError::Session(SessionError::InvalidState))
            },
            (AcceptStage::AwaitOpen, AdmissionFrame::Open) => Ok(AcceptStage::Requested),
            (AcceptStage::AwaitOpen, AdmissionFrame::EarlyOpen) => if takes_early {
                Ok(AcceptStage::EarlyRequested)
            } else {
                Err(FlowError::Session(SessionError::InvalidState))
            },
            _ => Err(FlowError::Session(SessionError::InvalidState)),
        }
    }
}

/// What is looked at next of a request with initial bytes.
#[derive(Clone, Copy, Debug, PartialEq, Eq, Structural)]
pub enum EarlyStage {
    /// Whether its token is one.
    Token,
    /// Whether capabilities were negotiated.
    Fingerprint,
    /// Whether the connection may have flows.
    Authorization,
    /// Whether the peer authenticates.
    Authentication,
    /// Whether the connection may have flows, now that the peer authenticated.
    SecondAuthorization,
    /// Whether the initial bytes fit in memory.
    Memory,
    /// Whether the token was not used before.
    Replay,
    /// The request is let in.
    Accepted,
}

/// What a look at a request with initial bytes showed.
#[derive(Clone, Copy, Debug, PartialEq, Eq, Structural)]
pub enum EarlyFinding {
    /// What was looked at is in order.
    Passed,
    /// It is not.
    Failed(FlowError),
}

/// Where a request with initial bytes starts: bytes that do not fit the flow's buffer are
/// refused at once.
pub open spec fn early_begun(initial_length: int, flow_buffer_bytes: int) -> Result<EarlyStage, FlowError> {
    if initial_length > flow_buffer_bytes {
        Err(FlowError::Session(SessionError::InvalidState))
    } else {
        Ok(EarlyStage::Token)
    }
}

/// What a finding does to a request with initial bytes: everything has to be in order, one
/// thing after the other. A peer that did not authenticate yet is waited for, once.
pub open spec fn early_step(stage: EarlyStage, finding: EarlyFinding) -> Result<EarlyStage, FlowError> {
    match finding {
        EarlyFinding::Failed(error) => if stage == EarlyStage::Authorization && error
            == FlowError::Session(SessionError::PeerUnauthenticated) {
            Ok(EarlyStage::Authentication)
        } else {
            Err(error)
        },
        EarlyFinding::Passed => Ok(
            match stage {
                EarlyStage::Token => EarlyStage::Fingerprint,
                EarlyStage::Fingerprint => EarlyStage::Authorization,
                EarlyStage::Authorization => EarlyStage::Memory,
                EarlyStage::Authentication => EarlyStage::SecondAuthorization,
                EarlyStage::SecondAuthorization => EarlyStage::Memory,
                EarlyStage::Memory => EarlyStage::Replay,
                EarlyStage::Replay => EarlyStage::Accepted,
                EarlyStage::Accepted => EarlyStage::Accepted,
            },
        ),
    }
}

impl EarlyStage {
    /// Takes up a request with so many initial bytes.
    pub fn begin(initial_length: usize, flow_buffer_bytes: usize) -> (result: Result<EarlyStage, FlowError>)
        ensures
            result == early_begun(initial_length as int, flow_buffer_bytes as int),
    {
        if initial_length > flow_buffer_bytes {
            Err(FlowError::Session(SessionError::InvalidState))
        } else {
            Ok(EarlyStage::Token)
        }
    }

    /// Takes a finding.
    pub fn advance(self, finding: EarlyFinding) -> (result: Result<EarlyStage, FlowError>)
        ensures
            result == early_step(self, finding),
    {
        match finding {
            EarlyFinding::Failed(error) => if self == EarlyStage::Authorization && error
                == FlowError::Session(SessionError::PeerUnauthenticated) {
                Ok(EarlyStage::Authentication)
            } else {
                Err(error)
            },
            EarlyFinding::Passed => Ok(
                match self {
                    EarlyStage::Token => EarlyStage::Fingerprint,
                    EarlyStage::Fingerprint => EarlyStage::Authorization,
                    EarlyStage::Authorization => EarlyStage::Memory,
                    EarlyStage::Authentication => EarlyStage::SecondAuthorization,
                    EarlyStage::SecondAuthorization => EarlyStage::Memory,
                    EarlyStage::Memory => EarlyStage::Replay,
                    EarlyStage::Replay => EarlyStage::Accepted,
                    EarlyStage::Accepted => EarlyStage::Accepted,
                },
            ),
        }
    }
}

/// Where a request is after some findings, unless one of them refused it.
pub open spec fn early_run(stage: EarlyStage, findings: Seq<EarlyFinding>) -> Result<EarlyStage, FlowError>
    decreases findings.len(),
{
    if findings.len() == 0 {
        Ok(stage)
    } else {
        match early_run(stage, findings.drop_last()) {
            Err(error) => Err(error),
            Ok(reached) => early_step(reached, findings.last()),
        }
    }
}

/// Whether a finding may stand at a position on the way in: everything passes, but a peer
/// may not have authenticated when it is first asked for.
pub open spec fn admissible(findings: Seq<EarlyFinding>, index: int) -> bool {
    findings[index] == EarlyFinding::Passed || index == 2 && findings[index] == EarlyFinding::Failed(
        FlowError::Session(SessionError::PeerUnauthenticated),
    )
}

/// Which stages a request can be at after so many findings.
pub open spec fn reachable(stage: EarlyStage, findings: Seq<EarlyFinding>) -> bool {
    let count = findings.len();
    let waited = count > 2 && findings[2] != EarlyFinding::Passed;
    match stage {
        EarlyStage::Token => count == 0,
        EarlyStage::Fingerprint => count == 1,
        EarlyStage::Authorization => count == 2,
        EarlyStage::Authentication => count == 3 && waited,
        EarlyStage::SecondAuthorization => count == 4 && waited,
        EarlyStage::Memory => if waited {
            count == 5
        } else {
            count == 3
        },
        EarlyStage::Replay => if waited {
            count == 6
        } else {
            count == 4
        },
        EarlyStage::Accepted => if waited {
            count >= 7
        } else {
            count >= 5
        },
    }
}

proof fn lemma_early_run(findings: Seq<EarlyFinding>)
    ensures
        early_run(EarlyStage::Token, findings) matches Ok(stage) ==> reachable(stage, findings) && forall|index: int|
            0 <= index < findings.len() ==> #[trigger] admissible(findings, index),
    decreases findings.len(),
{
    if findings.len() > 0 {
        let front = findings.drop_last();
        lemma_early_run(front);
        if early_run(EarlyStage::Token, findings) is Ok {
            assert forall|index: int| 0 <= index < findings.len() implies #[trigger] admissible(findings, index) by {
                if index < front.len() {
                    assert(admissible(front, index));
                }
            }
        }
    }
}

/// Initial bytes are let in only behind every check: the token, the capabilities, the
/// authorization, the memory and the replay protection each passed. The one thing that may
/// fail on the way is the first look for a peer that has not authenticated yet; then it
/// authenticated, and was authorized again.
pub proof fn law_early_data_passes_every_check(findings: Seq<EarlyFinding>)
    requires
        early_run(EarlyStage::Token, findings) == Ok::<EarlyStage, FlowError>(EarlyStage::Accepted),
    ensures
        findings.len() >= 5,
        findings[2] != EarlyFinding::Passed ==> findings.len() >= 7,
        forall|index: int| 0 <= index < findings.len() ==> #[trigger] admissible(findings, index),
{
    lemma_early_run(findings);
}

/// A request that was refused stays refused.
pub proof fn law_refused_early_data_stays_out(findings: Seq<EarlyFinding>, more: EarlyFinding)
    requires
        early_run(EarlyStage::Token, findings) is Err,
    ensures
        early_run(EarlyStage::Token, findings.push(more)) == early_run(EarlyStage::Token, findings),
{
    assert(findings.push(more).drop_last() =~= findings);
}

/// A flow opens only on the peer's capabilities and then its accepting status; anything
/// else ends the exchange.
pub proof fn law_flow_opens_only_on_an_accepting_status(first: AdmissionFrame, second: AdmissionFrame)
    ensures
        match open_step(OpenStage::AwaitCapabilities, first) {
            Ok(stage) => open_step(stage, second) == Ok::<OpenStage, FlowError>(OpenStage::Opened) <==> second
                == AdmissionFrame::Status(OpenStatus::Accepted),
            Err(_) => first != (AdmissionFrame::Capabilities { negotiated: true }),
        },
{
}

/// What a pending flow needs to be accepted: initial bytes have to be paid for.
pub fn check_accept(initial_length: usize, charged: bool) -> (result: Result<(), FlowError>)
    ensures
        result == (if initial_length == 0 || charged {
            Ok::<(), FlowError>(())
        } else {
            Err(FlowError::Accept(AcceptFailure::Recovery(RecoveryError::Capacity)))
        }),
{
    if initial_length != 0 && !charged {
        Err(FlowError::Accept(AcceptFailure::Recovery(RecoveryError::Capacity)))
    } else {
        Ok(())
    }
}

/// A pending flow is refused with a status that refuses.
pub fn check_reject(status: OpenStatus) -> (result: Result<(), FlowError>)
    ensures
        result == (if status == OpenStatus::Accepted {
            Err::<(), FlowError>(FlowError::InvalidRejectStatus)
        } else {
            Ok(())
        }),
{
    if status == OpenStatus::Accepted {
        Err(FlowError::InvalidRejectStatus)
    } else {
        Ok(())
    }
}

}
