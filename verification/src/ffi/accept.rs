//! How a server engine looks at one flow request at a time and decides on it.
use crate::faketcp::encode::put;
use crate::ffi::flows;
use crate::ffi::flows::FlowTable;
use crate::ffi::state;
use crate::ffi::state::ConnectionState;
use crate::ffi::types::{FfiRole, FfiStatus};
use vstd::prelude::*;

verus! {

/// What a peer asks for.
#[derive(Debug)]
pub struct Offer {
    /// The host.
    pub host: Vec<u8>,
    /// The port.
    pub port: u16,
    /// The data that came along.
    pub initial: Vec<u8>,
}

/// How far a request has come. `P` is the request as the transport holds it.
#[derive(Debug)]
pub enum AcceptState<P> {
    /// There is none.
    Idle,
    /// One is being received, replay-safe or not.
    Receiving(bool),
    /// One was received and waits for a decision.
    Offered {
        /// Whether it is replay-safe.
        replay: bool,
        /// Its handle.
        handle: u64,
        /// What the peer asks for.
        offer: Offer,
        /// The request as the transport holds it.
        pending: P,
    },
    /// The decision on one is being sent.
    Resolving {
        /// Its handle.
        handle: u64,
        /// The decision.
        accept: bool,
    },
    /// One was accepted.
    Accepted {
        /// Its handle.
        handle: u64,
        /// The handle of the flow.
        flow: u64,
    },
    /// One was rejected.
    Rejected(u64),
    /// None could be received.
    ReceiveFailed(bool),
    /// The decision on one could not be sent.
    ResolveFailed(u64),
}

/// What a call that looks at a request tells of it.
#[derive(Clone, Copy, Debug, PartialEq, Eq, Structural)]
pub struct RequestReport {
    /// The handle of the request.
    pub request: u64,
    /// The length of the host.
    pub host_length: u32,
    /// The port.
    pub port: u16,
    /// The length of the initial data.
    pub initial_length: u32,
    /// Whether both buffers were large enough, and hold the host and the initial data.
    pub copied: bool,
}

/// What a call that looks at a request answers.
#[derive(Clone, Copy, Debug, PartialEq, Eq, Structural)]
pub enum RequestStep {
    /// This status.
    Answer(FfiStatus),
    /// A request waits for a decision. The status is that of a completed call, or that the
    /// buffers are too small.
    Offered(RequestReport),
    /// A request is to be received in the background.
    Begin,
}

/// What a call that decides on a request answers.
#[derive(Debug)]
pub enum DecisionStep<P> {
    /// This status.
    Answer(FfiStatus),
    /// The flow of this handle; the status is that of a completed call.
    Accepted(u64),
    /// The decision on this request is to be sent in the background.
    Begin(P),
}

/// A length as far as it can be told in 32 bits.
pub open spec fn told_length(length: int) -> u32 {
    if length > u32::MAX {
        u32::MAX
    } else {
        length as u32
    }
}

/// A length as far as it can be told in 32 bits.
pub fn tell_length(length: usize) -> (told: u32)
    ensures
        told == told_length(length as int),
{
    if length as u64 > 0xffff_ffff {
        u32::MAX
    } else {
        length as u32
    }
}

/// What a call tells of a request, given the room of the two buffers.
pub open spec fn reported(handle: u64, offer: Offer, host_room: int, initial_room: int) -> RequestReport {
    RequestReport {
        request: handle,
        host_length: told_length(offer.host@.len() as int),
        port: offer.port,
        initial_length: told_length(offer.initial@.len() as int),
        copied: offer.host@.len() <= host_room && offer.initial@.len() <= initial_room,
    }
}

/// What a call that looks at a request answers. `admission` says whether the engine has a
/// replay policy, and `closed` whether an established connection is closed by now.
pub open spec fn request_polled<P>(
    role: FfiRole,
    admission: bool,
    connection: ConnectionState,
    progress: AcceptState<P>,
    replay: bool,
    closed: bool,
    host_room: int,
    initial_room: int,
) -> (RequestStep, AcceptState<P>) {
    let invalid = RequestStep::Answer(FfiStatus::InvalidArgument);
    if role != FfiRole::Server || (replay && !admission) {
        (invalid, progress)
    } else {
        match progress {
            AcceptState::Receiving(active) => if active == replay {
                (RequestStep::Answer(FfiStatus::WouldBlock), progress)
            } else {
                (invalid, progress)
            },
            AcceptState::Offered { replay: active, handle, offer, .. } => if active == replay {
                (RequestStep::Offered(reported(handle, offer, host_room, initial_room)), progress)
            } else {
                (invalid, progress)
            },
            AcceptState::ReceiveFailed(active) => if active == replay {
                (RequestStep::Answer(FfiStatus::Failed), AcceptState::Idle)
            } else {
                (invalid, progress)
            },
            AcceptState::Idle => match state::unusable(connection, closed) {
                Some(status) => (RequestStep::Answer(status), progress),
                None => (RequestStep::Begin, AcceptState::Receiving(replay)),
            },
            _ => (invalid, progress),
        }
    }
}

/// What the two buffers hold after a call that looked at a request: the host and the initial
/// data in front where they were copied, and what they held before otherwise.
pub open spec fn request_copied<P>(
    progress: AcceptState<P>,
    step: RequestStep,
    host_before: Seq<u8>,
    host_after: Seq<u8>,
    initial_before: Seq<u8>,
    initial_after: Seq<u8>,
) -> bool {
    match (step, progress) {
        (RequestStep::Offered(report), AcceptState::Offered { offer, .. }) => if report.copied {
            &&& host_after == offer.host@ + host_before.skip(offer.host@.len() as int)
            &&& initial_after == offer.initial@ + initial_before.skip(offer.initial@.len() as int)
        } else {
            host_after == host_before && initial_after == initial_before
        },
        _ => host_after == host_before && initial_after == initial_before,
    }
}

/// What a call that decides on a request answers, and how it leaves the request. The request
/// that is to be decided on in the background is the one that was offered.
pub open spec fn decision_polled<P>(
    role: FfiRole,
    progress: AcceptState<P>,
    request: u64,
    accept: bool,
) -> (DecisionStep<P>, AcceptState<P>) {
    let invalid = DecisionStep::Answer(FfiStatus::InvalidArgument);
    if role != FfiRole::Server || request == 0 {
        (invalid, progress)
    } else {
        match progress {
            AcceptState::Resolving { handle, accept: active } => if handle == request && active == accept {
                (DecisionStep::Answer(FfiStatus::WouldBlock), progress)
            } else {
                (invalid, progress)
            },
            AcceptState::Accepted { handle, flow } => if handle == request && accept {
                (DecisionStep::Accepted(flow), AcceptState::Idle)
            } else {
                (invalid, progress)
            },
            AcceptState::Rejected(handle) => if handle == request && !accept {
                (DecisionStep::Answer(FfiStatus::Completed), AcceptState::Idle)
            } else {
                (invalid, progress)
            },
            AcceptState::ResolveFailed(handle) => if handle == request {
                (DecisionStep::Answer(FfiStatus::Failed), AcceptState::Idle)
            } else {
                (invalid, progress)
            },
            AcceptState::Offered { handle, pending, .. } => if handle == request {
                (DecisionStep::Begin(pending), AcceptState::Resolving { handle, accept })
            } else {
                (invalid, progress)
            },
            _ => (invalid, progress),
        }
    }
}

/// The handle of the request at hand, where it has one.
pub open spec fn request_at_hand<P>(progress: AcceptState<P>) -> Option<u64> {
    match progress {
        AcceptState::Offered { handle, .. } => Some(handle),
        AcceptState::Resolving { handle, .. } => Some(handle),
        AcceptState::Accepted { handle, .. } => Some(handle),
        AcceptState::Rejected(handle) => Some(handle),
        AcceptState::ResolveFailed(handle) => Some(handle),
        _ => None,
    }
}

/// A decision on a request that is not at hand is refused and disturbs nothing.
pub proof fn law_stale_request_is_refused<P>(role: FfiRole, progress: AcceptState<P>, request: u64, accept: bool)
    requires
        request_at_hand(progress) != Some(request),
    ensures
        decision_polled(role, progress, request, accept) == (
            DecisionStep::<P>::Answer(FfiStatus::InvalidArgument),
            progress,
        ),
{
}

/// A request is decided on once: after a decision began, neither the other decision nor
/// another look at requests gets at it.
pub proof fn law_decision_is_made_once<P>(
    progress: AcceptState<P>,
    request: u64,
    accept: bool,
    admission: bool,
    connection: ConnectionState,
    replay: bool,
    closed: bool,
    host_room: int,
    initial_room: int,
)
    requires
        decision_polled(FfiRole::Server, progress, request, accept).0 is Begin,
    ensures
        ({
            let after = decision_polled(FfiRole::Server, progress, request, accept).1;
            &&& decision_polled(FfiRole::Server, after, request, !accept) == (
                DecisionStep::<P>::Answer(FfiStatus::InvalidArgument),
                after,
            )
            &&& decision_polled(FfiRole::Server, after, request, accept) == (
                DecisionStep::<P>::Answer(FfiStatus::WouldBlock),
                after,
            )
            &&& request_polled(
                FfiRole::Server,
                admission,
                connection,
                after,
                replay,
                closed,
                host_room,
                initial_room,
            ) == (RequestStep::Answer(FfiStatus::InvalidArgument), after)
        }),
{
}

/// Looking at a request does not use it up: the next look finds the same.
pub proof fn law_looking_keeps_the_request<P>(
    admission: bool,
    connection: ConnectionState,
    progress: AcceptState<P>,
    replay: bool,
    closed: bool,
    host_room: int,
    initial_room: int,
)
    requires
        request_polled(
            FfiRole::Server,
            admission,
            connection,
            progress,
            replay,
            closed,
            host_room,
            initial_room,
        ).0 is Offered,
    ensures
        request_polled(FfiRole::Server, admission, connection, progress, replay, closed, host_room, initial_room).1
            == progress,
{
}

impl<P> AcceptState<P> {
    /// What a call that looks at a request answers. The host and the initial data go to the
    /// two buffers.
    pub fn poll_flow_request(
        &mut self,
        role: FfiRole,
        admission: bool,
        connection: ConnectionState,
        replay: bool,
        closed: bool,
        host_output: &mut [u8],
        initial_output: &mut [u8],
    ) -> (step: RequestStep)
        ensures
            (step, *final(self)) == request_polled(
                role,
                admission,
                connection,
                *old(self),
                replay,
                closed,
                old(host_output)@.len() as int,
                old(initial_output)@.len() as int,
            ),
            request_copied(
                *old(self),
                step,
                old(host_output)@,
                final(host_output)@,
                old(initial_output)@,
                final(initial_output)@,
            ),
    {
        if role != FfiRole::Server || (replay && !admission) {
            return RequestStep::Answer(FfiStatus::InvalidArgument);
        }
        match &*self {
            AcceptState::Receiving(active) => {
                if *active == replay {
                    return RequestStep::Answer(FfiStatus::WouldBlock);
                }
                return RequestStep::Answer(FfiStatus::InvalidArgument);
            },
            AcceptState::Offered { replay: active, handle, offer, .. } => {
                if *active != replay {
                    return RequestStep::Answer(FfiStatus::InvalidArgument);
                }
                let copied: bool = offer.host.len() <= host_output.len() && offer.initial.len()
                    <= initial_output.len();
                if copied {
                    put(host_output, 0, offer.host.as_slice());
                    put(initial_output, 0, offer.initial.as_slice());
                    assert(host_output@ =~= offer.host@ + old(host_output)@.skip(offer.host@.len() as int));
                    assert(initial_output@ =~= offer.initial@ + old(initial_output)@.skip(
                        offer.initial@.len() as int,
                    ));
                }
                return RequestStep::Offered(
                    RequestReport {
                        request: *handle,
                        host_length: tell_length(offer.host.len()),
                        port: offer.port,
                        initial_length: tell_length(offer.initial.len()),
                        copied,
                    },
                );
            },
            AcceptState::ReceiveFailed(active) => {
                if *active == replay {
                    *self = AcceptState::Idle;
                    return RequestStep::Answer(FfiStatus::Failed);
                }
                return RequestStep::Answer(FfiStatus::InvalidArgument);
            },
            AcceptState::Idle => {},
            _ => {
                return RequestStep::Answer(FfiStatus::InvalidArgument);
            },
        }
        if let Some(status) = connection.refusal(closed) {
            return RequestStep::Answer(status);
        }
        *self = AcceptState::Receiving(replay);
        RequestStep::Begin
    }

    /// Records that no request can be received in the background. The call fails.
    pub fn request_not_started(&mut self, replay: bool) -> (status: FfiStatus)
        ensures
            status == FfiStatus::Failed,
            *final(self) == AcceptState::<P>::ReceiveFailed(replay),
    {
        *self = AcceptState::ReceiveFailed(replay);
        FfiStatus::Failed
    }

    /// Records what was received: a request under a new handle, or a failure.
    pub fn finish_request(&mut self, replay: bool, received: Option<(u64, Offer, P)>)
        ensures
            *final(self) == (match received {
                Some((handle, offer, pending)) => AcceptState::Offered { replay, handle, offer, pending },
                None => AcceptState::<P>::ReceiveFailed(replay),
            }),
    {
        *self = match received {
            Some((handle, offer, pending)) => AcceptState::Offered { replay, handle, offer, pending },
            None => AcceptState::ReceiveFailed(replay),
        };
    }

    /// What a call that decides on a request answers.
    pub fn poll_flow_decision(&mut self, role: FfiRole, request: u64, accept: bool) -> (step: DecisionStep<P>)
        ensures
            (step, *final(self)) == decision_polled(role, *old(self), request, accept),
    {
        if role != FfiRole::Server || request == 0 {
            return DecisionStep::Answer(FfiStatus::InvalidArgument);
        }
        let mut held: AcceptState<P> = AcceptState::Idle;
        std::mem::swap(&mut held, self);
        match held {
            AcceptState::Resolving { handle, accept: active } => {
                *self = AcceptState::Resolving { handle, accept: active };
                if handle == request && active == accept {
                    return DecisionStep::Answer(FfiStatus::WouldBlock);
                }
            },
            AcceptState::Accepted { handle, flow } => {
                if handle == request && accept {
                    return DecisionStep::Accepted(flow);
                }
                *self = AcceptState::Accepted { handle, flow };
            },
            AcceptState::Rejected(handle) => {
                if handle == request && !accept {
                    return DecisionStep::Answer(FfiStatus::Completed);
                }
                *self = AcceptState::Rejected(handle);
            },
            AcceptState::ResolveFailed(handle) => {
                if handle == request {
                    return DecisionStep::Answer(FfiStatus::Failed);
                }
                *self = AcceptState::ResolveFailed(handle);
            },
            AcceptState::Offered { replay, handle, offer, pending } => {
                if handle == request {
                    *self = AcceptState::Resolving { handle, accept };
                    return DecisionStep::Begin(pending);
                }
                *self = AcceptState::Offered { replay, handle, offer, pending };
            },
            other => {
                *self = other;
            },
        }
        DecisionStep::Answer(FfiStatus::InvalidArgument)
    }

    /// Records that a decision cannot be sent in the background. The call fails.
    pub fn decision_not_started(&mut self, handle: u64) -> (status: FfiStatus)
        ensures
            status == FfiStatus::Failed,
            *final(self) == AcceptState::<P>::ResolveFailed(handle),
    {
        *self = AcceptState::ResolveFailed(handle);
        FfiStatus::Failed
    }

    /// Records what became of an acceptance: the flow under a new handle, or a failure.
    pub fn finish_accept<F>(&mut self, flows: &mut FlowTable<F>, handle: u64, accepted: Option<(u64, F)>)
        ensures
            match accepted {
                Some((flow_handle, flow)) => {
                    &&& *final(self) == (AcceptState::<P>::Accepted { handle, flow: flow_handle })
                    &&& final(flows).slots@ == flows::with_flow(old(flows).slots@, flow_handle, flow)
                },
                None => {
                    &&& *final(self) == AcceptState::<P>::ResolveFailed(handle)
                    &&& final(flows).slots@ == old(flows).slots@
                },
            },
    {
        match accepted {
            Some((flow_handle, flow)) => {
                flows.insert_flow(flow_handle, flow);
                *self = AcceptState::Accepted { handle, flow: flow_handle };
            },
            None => {
                *self = AcceptState::ResolveFailed(handle);
            },
        }
    }

    /// Records whether a rejection was sent.
    pub fn finish_reject(&mut self, handle: u64, sent: bool)
        ensures
            *final(self) == (if sent {
                AcceptState::<P>::Rejected(handle)
            } else {
                AcceptState::<P>::ResolveFailed(handle)
            }),
    {
        *self = if sent {
            AcceptState::Rejected(handle)
        } else {
            AcceptState::ResolveFailed(handle)
        };
    }
}

}
