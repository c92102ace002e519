//! How a client engine opens one flow at a time.
use crate::ffi::flows;
use crate::ffi::flows::FlowTable;
use crate::ffi::memory::{valid_engine_output, Buffer, Pointer, buffer_region, disjoint, region_of};
use crate::ffi::memory;
use crate::ffi::state;
use crate::ffi::state::ConnectionState;
use crate::ffi::types::{FfiRole, FfiStatus, MAX_EARLY_INITIAL_BYTES};
use crate::storage;
use crate::text;
use bytes::Bytes;
use vstd::prelude::*;

verus! {

/// What makes an open replay-safe.
#[derive(Debug)]
pub struct ReplayOpen {
    /// The token of the server.
    pub token: Vec<u8>,
    /// The number of this attempt.
    pub nonce: u64,
    /// The data that is sent along.
    pub initial: Bytes,
}

/// An open that was started.
#[derive(Debug)]
pub struct OpenOperation {
    /// The canonical host.
    pub host: String,
    /// The port.
    pub port: u16,
    /// What makes it replay-safe, if it is.
    pub replay: Option<ReplayOpen>,
}

/// Whether an open is in progress.
#[derive(Debug)]
pub enum OpenState {
    /// There is none.
    Idle,
    /// One is in progress.
    Pending(OpenOperation),
    /// One made this flow.
    Ready(OpenOperation, u64),
    /// One failed.
    Failed(OpenOperation),
}

/// What a caller gives to make an open replay-safe.
#[derive(Clone, Copy, Debug)]
pub struct ReplayInput<'a> {
    /// The token of the server.
    pub token: &'a [u8],
    /// The number of this attempt.
    pub nonce: u64,
    /// The data that is sent along.
    pub initial: &'a [u8],
}

/// What a caller gives to open a flow.
#[derive(Clone, Copy, Debug)]
pub struct OpenInput<'a> {
    /// The host.
    pub host: &'a [u8],
    /// The port.
    pub port: u16,
    /// What makes it replay-safe, if it is to be.
    pub replay: Option<ReplayInput<'a>>,
}

/// The content of what makes an open replay-safe.
#[verifier::ext_equal]
pub ghost struct ReplayModel {
    /// The token.
    pub token: Seq<u8>,
    /// The number of the attempt.
    pub nonce: u64,
    /// The data that is sent along.
    pub initial: Seq<u8>,
}

/// The content of an open.
#[verifier::ext_equal]
pub ghost struct OpenModel {
    /// The canonical host.
    pub host: Seq<char>,
    /// The port.
    pub port: u16,
    /// What makes it replay-safe, if it is.
    pub replay: Option<ReplayModel>,
}

/// The content of the state of an open.
#[verifier::ext_equal]
pub ghost enum OpenProgress {
    /// There is none.
    Idle,
    /// One is in progress.
    Pending(OpenModel),
    /// One made this flow.
    Ready(OpenModel, u64),
    /// One failed.
    Failed(OpenModel),
}

/// What makes an open replay-safe, by its content.
pub open spec fn replay_model(replay: Option<ReplayOpen>) -> Option<ReplayModel> {
    match replay {
        Some(given) => Some(
            ReplayModel { token: given.token@, nonce: given.nonce, initial: storage::contents(given.initial) },
        ),
        None => None,
    }
}

/// What a caller gives to make an open replay-safe, by its content.
pub open spec fn replay_input(replay: Option<ReplayInput>) -> Option<ReplayModel> {
    match replay {
        Some(given) => Some(ReplayModel { token: given.token@, nonce: given.nonce, initial: given.initial@ }),
        None => None,
    }
}

impl View for OpenOperation {
    type V = OpenModel;

    open spec fn view(&self) -> OpenModel {
        OpenModel { host: self.host@, port: self.port, replay: replay_model(self.replay) }
    }
}

impl View for OpenState {
    type V = OpenProgress;

    open spec fn view(&self) -> OpenProgress {
        match self {
            OpenState::Idle => OpenProgress::Idle,
            OpenState::Pending(operation) => OpenProgress::Pending(operation@),
            OpenState::Ready(operation, handle) => OpenProgress::Ready(operation@, *handle),
            OpenState::Failed(operation) => OpenProgress::Failed(operation@),
        }
    }
}

/// What a call answers.
#[derive(Debug)]
pub enum OpenStep {
    /// This status.
    Answer(FfiStatus),
    /// The flow of this handle; the status is that of a completed call.
    Opened(u64),
    /// An open is to be started in the background.
    Begin(OpenOperation),
}

/// The content of an answer.
#[verifier::ext_equal]
pub ghost enum OpenReply {
    /// This status.
    Answer(FfiStatus),
    /// The flow of this handle.
    Opened(u64),
    /// An open is to be started in the background.
    Begin(OpenModel),
}

impl View for OpenStep {
    type V = OpenReply;

    open spec fn view(&self) -> OpenReply {
        match self {
            OpenStep::Answer(status) => OpenReply::Answer(*status),
            OpenStep::Opened(handle) => OpenReply::Opened(*handle),
            OpenStep::Begin(operation) => OpenReply::Begin(operation@),
        }
    }
}

/// Whether a call is about an open that was started: it names the canonical host, and
/// everything else is the same.
pub open spec fn matches_input(active: OpenModel, input: OpenInput) -> bool {
    &&& active.host == vstd::utf8::decode_utf8(input.host@)
    &&& active.port == input.port
    &&& active.replay == replay_input(input.replay)
}

/// What a call that opens a flow answers, and how it leaves the open. `closed` says whether
/// an established connection is closed by now; `canonical` is the canonical form of the host,
/// where it has one; `token_accepted` says whether the token has the form of one.
pub open spec fn open_polled(
    role: FfiRole,
    connection: ConnectionState,
    progress: OpenProgress,
    input: OpenInput,
    closed: bool,
    canonical: Option<String>,
    token_accepted: bool,
) -> (OpenReply, OpenProgress) {
    let invalid = OpenReply::Answer(FfiStatus::InvalidArgument);
    if !vstd::utf8::valid_utf8(input.host@) || input.port == 0 || role != FfiRole::Client {
        (invalid, progress)
    } else {
        match progress {
            OpenProgress::Pending(active) => if matches_input(active, input) {
                (OpenReply::Answer(FfiStatus::WouldBlock), progress)
            } else {
                (invalid, progress)
            },
            OpenProgress::Ready(active, handle) => if matches_input(active, input) {
                (OpenReply::Opened(handle), OpenProgress::Idle)
            } else {
                (invalid, progress)
            },
            OpenProgress::Failed(active) => if matches_input(active, input) {
                (OpenReply::Answer(FfiStatus::Failed), OpenProgress::Idle)
            } else {
                (invalid, progress)
            },
            OpenProgress::Idle => match state::unusable(connection, closed) {
                Some(status) => (OpenReply::Answer(status), progress),
                None => match canonical {
                    None => (invalid, progress),
                    Some(host) => if input.replay is Some && !token_accepted {
                        (invalid, progress)
                    } else {
                        let operation = OpenModel {
                            host: host@,
                            port: input.port,
                            replay: replay_input(input.replay),
                        };
                        (OpenReply::Begin(operation), OpenProgress::Pending(operation))
                    },
                },
            },
        }
    }
}

/// A call about another open than the one at hand is refused and disturbs nothing.
pub proof fn law_one_open_at_a_time(
    role: FfiRole,
    connection: ConnectionState,
    progress: OpenProgress,
    input: OpenInput,
    closed: bool,
    canonical: Option<String>,
    token_accepted: bool,
)
    requires
        match progress {
            OpenProgress::Idle => false,
            OpenProgress::Pending(active) => !matches_input(active, input),
            OpenProgress::Ready(active, _) => !matches_input(active, input),
            OpenProgress::Failed(active) => !matches_input(active, input),
        },
    ensures
        open_polled(role, connection, progress, input, closed, canonical, token_accepted) == (
            OpenReply::Answer(FfiStatus::InvalidArgument),
            progress,
        ),
{
}

/// A caller that repeats its call gets what became of its open: it waits while the open is in
/// progress, and is told the result once. The host has to be given in its canonical form.
pub proof fn law_repeated_open_is_answered_once(
    connection: ConnectionState,
    input: OpenInput,
    closed: bool,
    canonical: Option<String>,
    token_accepted: bool,
    handle: u64,
)
    requires
        vstd::utf8::valid_utf8(input.host@),
        input.port != 0,
        canonical matches Some(host) && host@ == vstd::utf8::decode_utf8(input.host@),
        input.replay is Some ==> token_accepted,
        state::unusable(connection, closed) is None,
    ensures
        ({
            let (begun, pending) = open_polled(
                FfiRole::Client,
                connection,
                OpenProgress::Idle,
                input,
                closed,
                canonical,
                token_accepted,
            );
            &&& begun is Begin
            &&& pending == OpenProgress::Pending(begun->Begin_0)
            &&& open_polled(FfiRole::Client, connection, pending, input, closed, canonical, token_accepted) == (
                OpenReply::Answer(FfiStatus::WouldBlock),
                pending,
            )
            &&& open_polled(
                FfiRole::Client,
                connection,
                OpenProgress::Ready(begun->Begin_0, handle),
                input,
                closed,
                canonical,
                token_accepted,
            ) == (OpenReply::Opened(handle), OpenProgress::Idle)
            &&& open_polled(
                FfiRole::Client,
                connection,
                OpenProgress::Failed(begun->Begin_0),
                input,
                closed,
                canonical,
                token_accepted,
            ) == (OpenReply::Answer(FfiStatus::Failed), OpenProgress::Idle)
        }),
{
}

/// Whether an open that was started is the one that a call is about.
pub fn open_matches(active: &OpenOperation, host: &str, port: u16, replay: Option<ReplayInput>) -> (same: bool)
    ensures
        same == (active@.host == host@ && active@.port == port && active@.replay == replay_input(replay)),
{
    if !storage::equal(active.host.as_str().as_bytes(), host.as_bytes()) {
        proof {
            assert(active.host@ != host@);
        }
        return false;
    }
    proof {
        vstd::utf8::encode_utf8_decode_utf8(active.host@);
        vstd::utf8::encode_utf8_decode_utf8(host@);
    }
    if active.port != port {
        return false;
    }
    match (&active.replay, replay) {
        (None, None) => true,
        (Some(known), Some(given)) => storage::equal(known.token.as_slice(), given.token) && known.nonce == given.nonce
            && storage::equal(storage::as_slice(&known.initial), given.initial),
        _ => false,
    }
}

impl OpenOperation {
    /// Another handle on the same operation.
    pub fn share(&self) -> (shared: Self)
        ensures
            shared@ == self@,
    {
        let replay = match &self.replay {
            Some(given) => Some(
                ReplayOpen {
                    token: vstd::slice::slice_to_vec(given.token.as_slice()),
                    nonce: given.nonce,
                    initial: storage::share(&given.initial),
                },
            ),
            None => None,
        };
        OpenOperation { host: self.host.clone(), port: self.port, replay }
    }
}

impl OpenState {
    /// What a call that opens a flow answers.
    pub fn poll_open(
        &mut self,
        role: FfiRole,
        connection: ConnectionState,
        input: OpenInput,
        closed: bool,
        canonical: Option<String>,
        token_accepted: bool,
    ) -> (step: OpenStep)
        ensures
            (step@, final(self)@) == open_polled(
                role,
                connection,
                old(self)@,
                input,
                closed,
                canonical,
                token_accepted,
            ),
    {
        let host: &str = match text::from_utf8(input.host) {
            Some(host) => host,
            None => {
                return OpenStep::Answer(FfiStatus::InvalidArgument);
            },
        };
        if input.port == 0 || role != FfiRole::Client {
            return OpenStep::Answer(FfiStatus::InvalidArgument);
        }
        match &*self {
            OpenState::Pending(active) => {
                if open_matches(active, host, input.port, input.replay) {
                    return OpenStep::Answer(FfiStatus::WouldBlock);
                }
                return OpenStep::Answer(FfiStatus::InvalidArgument);
            },
            OpenState::Ready(active, handle) => {
                if open_matches(active, host, input.port, input.replay) {
                    let opened: u64 = *handle;
                    *self = OpenState::Idle;
                    return OpenStep::Opened(opened);
                }
                return OpenStep::Answer(FfiStatus::InvalidArgument);
            },
            OpenState::Failed(active) => {
                if open_matches(active, host, input.port, input.replay) {
                    *self = OpenState::Idle;
                    return OpenStep::Answer(FfiStatus::Failed);
                }
                return OpenStep::Answer(FfiStatus::InvalidArgument);
            },
            OpenState::Idle => {},
        }
        if let Some(status) = connection.refusal(closed) {
            return OpenStep::Answer(status);
        }
        let canonical_host: String = match canonical {
            Some(canonical_host) => canonical_host,
            None => {
                return OpenStep::Answer(FfiStatus::InvalidArgument);
            },
        };
        if input.replay.is_some() && !token_accepted {
            return OpenStep::Answer(FfiStatus::InvalidArgument);
        }
        let replay = match input.replay {
            Some(given) => Some(
                ReplayOpen {
                    token: vstd::slice::slice_to_vec(given.token),
                    nonce: given.nonce,
                    initial: storage::copy_from_slice(given.initial),
                },
            ),
            None => None,
        };
        let operation = OpenOperation { host: canonical_host, port: input.port, replay };
        *self = OpenState::Pending(operation.share());
        OpenStep::Begin(operation)
    }

    /// Records that an open could not be started in the background. The call fails.
    pub fn open_not_started(&mut self, operation: OpenOperation) -> (status: FfiStatus)
        ensures
            status == FfiStatus::Failed,
            final(self)@ == OpenProgress::Failed(operation@),
    {
        *self = OpenState::Failed(operation);
        FfiStatus::Failed
    }

    /// Records what became of an open: the flow under a new handle, or a failure.
    pub fn finish_open<F>(&mut self, flows: &mut FlowTable<F>, operation: OpenOperation, opened: Option<(u64, F)>)
        ensures
            match opened {
                Some((handle, flow)) => final(self)@ == OpenProgress::Ready(operation@, handle) && final(flows).slots@
                    == flows::with_flow(old(flows).slots@, handle, flow),
                None => final(self)@ == OpenProgress::Failed(operation@) && final(flows).slots@ == old(flows).slots@,
            },
    {
        match opened {
            Some((handle, flow)) => {
                flows.insert_flow(handle, flow);
                *self = OpenState::Ready(operation, handle);
            },
            None => {
                *self = OpenState::Failed(operation);
            },
        }
    }
}

/// Whether the memory of an open is acceptable: the host is there and has a length within the
/// bound, the handle may be written, and it does not overlap the host.
pub open spec fn open_memory_valid(engine: Pointer, host: Buffer, max_host: int, flow: Pointer) -> bool {
    &&& host.address != 0
    &&& 0 < host.length <= max_host
    &&& memory::output_valid(engine, flow)
    &&& memory::apart(host.region(), flow.region())
}

/// Checks the memory of an open.
pub fn check_open(engine: Pointer, host: Buffer, max_host: usize, flow: Pointer) -> (valid: bool)
    requires
        flow.align > 0,
    ensures
        valid == open_memory_valid(engine, host, max_host as int, flow),
{
    host.address != 0 && host.length != 0 && host.length <= max_host && valid_engine_output(engine, flow) && disjoint(
        buffer_region(host),
        region_of(flow),
    )
}

/// Whether the memory of a replay-safe open is acceptable: that of the open is, and the token
/// and the initial data are there, have a length that they may have, and do not overlap the
/// handle.
pub open spec fn replay_memory_valid(
    engine: Pointer,
    token: Buffer,
    token_bytes: int,
    host: Buffer,
    max_host: int,
    initial: Buffer,
    flow: Pointer,
) -> bool {
    &&& open_memory_valid(engine, host, max_host, flow)
    &&& token.address != 0
    &&& token.length == token_bytes
    &&& initial.address != 0
    &&& 0 < initial.length <= MAX_EARLY_INITIAL_BYTES
    &&& memory::apart(token.region(), flow.region())
    &&& memory::apart(initial.region(), flow.region())
}

/// Checks the memory of a replay-safe open.
pub fn check_replay_open(
    engine: Pointer,
    token: Buffer,
    token_bytes: usize,
    host: Buffer,
    max_host: usize,
    initial: Buffer,
    flow: Pointer,
) -> (valid: bool)
    requires
        flow.align > 0,
    ensures
        valid == replay_memory_valid(
            engine,
            token,
            token_bytes as int,
            host,
            max_host as int,
            initial,
            flow,
        ),
{
    check_open(engine, host, max_host, flow) && token.address != 0 && token.length == token_bytes && initial.address
        != 0 && initial.length != 0 && initial.length <= MAX_EARLY_INITIAL_BYTES && disjoint(
        buffer_region(token),
        region_of(flow),
    ) && disjoint(buffer_region(initial), region_of(flow))
}

}
