//! One engine: how it is set up, driven, and asked.
use crate::address::SocketAddress;
use crate::config::carrier::{CarrierConfig, CarrierPolicyModel};
use crate::config::duration::Duration;
use crate::config::endpoint;
use crate::config::endpoint::{ClientConfig, ClientModel, ServerConfig, ServerModel};
use crate::config::mtu::{MAX_QUIC_PAYLOAD, MIN_QUIC_PAYLOAD};
use crate::config::multipath;
use crate::config::multipath::{Multipath, MultipathMode, MultipathModel, PathCandidate};
use crate::config::transport;
use crate::config::transport::{QuicpTransportConfig, RecoveryMode};
use crate::faketcp::encode::put;
use crate::ffi::accept;
use crate::ffi::accept::{tell_length, AcceptState};
use crate::ffi::flows::FlowTable;
use crate::ffi::memory;
use crate::ffi::memory::{buffer_region, disjoint, region_of, valid_engine_output, valid_mut, Buffer, Pointer};
use crate::ffi::open::{OpenProgress, OpenState};
use crate::ffi::state;
use crate::ffi::state::ConnectionState;
use crate::ffi::types;
use crate::ffi::types::{
    recovery_from_code, FfiEngineConfig, FfiPathConfig, FfiRole, FfiSecurity, FfiStatus, ABI_VERSION,
    MAX_ENGINE_PACKET_CAPACITY, MAX_ENGINE_QUEUE_BYTES, MAX_FFI_STRING_BYTES, MAX_PATHS, MIN_REPLAY_SECRET_BYTES,
};
use crate::host_carrier;
use crate::host_carrier::{HostDatagramError, HostDatagramSocket, HostSocketModel, Wakes};
use crate::host_runtime;
use crate::host_runtime::{HostRuntime, HostRuntimeError};
use vstd::prelude::*;

verus! {

// ---------------------------------------------------------------------------
// Construction values
// ---------------------------------------------------------------------------

/// The two addresses of a path.
#[derive(Clone, Copy, Debug, PartialEq, Eq, Structural)]
pub struct PathAddresses {
    /// The local one.
    pub local: SocketAddress,
    /// The one of the peer.
    pub peer: SocketAddress,
}

/// Construction values that were checked.
#[derive(Debug)]
pub struct EngineSettings {
    /// The role.
    pub role: FfiRole,
    /// The recovery policy.
    pub recovery_mode: RecoveryMode,
    /// Datagram slots in each direction per path.
    pub capacity: usize,
    /// Maximum underlay datagram bytes.
    pub mtu: usize,
    /// The paths, primary first.
    pub paths: Vec<PathAddresses>,
}

/// Whether a path has two addresses of one family.
pub open spec fn path_accepted(path: FfiPathConfig) -> bool {
    match (types::socket_of(path.local), types::socket_of(path.peer)) {
        (Some(local), Some(peer)) => (local.ip is V4) == (peer.ip is V4),
        _ => false,
    }
}

/// The addresses of a path.
pub open spec fn addresses_of(path: FfiPathConfig) -> PathAddresses {
    PathAddresses { local: types::socket_of(path.local)->0, peer: types::socket_of(path.peer)->0 }
}

/// Whether construction values are within their bounds: the version and the numbers are
/// known, one or two paths have addresses, and the packet queues are small enough.
pub open spec fn config_accepted(config: FfiEngineConfig) -> bool {
    &&& config.abi_version == ABI_VERSION
    &&& FfiRole::numbered(config.role) is Some
    &&& types::recovery_numbered(config.recovery_mode) is Some
    &&& 1 <= config.path_count <= MAX_PATHS
    &&& 1 <= config.packet_capacity <= MAX_ENGINE_PACKET_CAPACITY
    &&& MIN_QUIC_PAYLOAD <= config.mtu <= MAX_QUIC_PAYLOAD
    &&& config.path_count * 2 * config.packet_capacity * config.mtu <= MAX_ENGINE_QUEUE_BYTES
    &&& forall|at: int| 0 <= at < config.path_count ==> path_accepted(#[trigger] config.paths@[at])
}

/// Whether these are the settings of construction values.
pub open spec fn settings_of(config: FfiEngineConfig, settings: EngineSettings) -> bool {
    &&& FfiRole::numbered(config.role) == Some(settings.role)
    &&& types::recovery_numbered(config.recovery_mode) == Some(settings.recovery_mode)
    &&& settings.capacity == config.packet_capacity
    &&& settings.mtu == config.mtu
    &&& settings.paths@ == Seq::new(config.path_count as nat, |at: int| addresses_of(config.paths@[at]))
}

fn read_path(path: &FfiPathConfig) -> (addresses: Option<PathAddresses>)
    ensures
        match addresses {
            Some(read) => path_accepted(*path) && read == addresses_of(*path),
            None => !path_accepted(*path),
        },
{
    match (path.local.get(), path.peer.get()) {
        (Some(local), Some(peer)) => {
            if local.ip.is_ipv4() == peer.ip.is_ipv4() {
                Some(PathAddresses { local, peer })
            } else {
                None
            }
        },
        _ => None,
    }
}

/// Checks construction values.
pub fn read_config(config: &FfiEngineConfig) -> (result: Result<EngineSettings, FfiStatus>)
    ensures
        match result {
            Ok(settings) => config_accepted(*config) && settings_of(*config, settings),
            Err(status) => !config_accepted(*config) && status == FfiStatus::InvalidArgument,
        },
{
    if config.abi_version != ABI_VERSION {
        return Err(FfiStatus::InvalidArgument);
    }
    let role: FfiRole = match FfiRole::from_code(config.role) {
        Some(role) => role,
        None => {
            return Err(FfiStatus::InvalidArgument);
        },
    };
    let recovery_mode: RecoveryMode = match recovery_from_code(config.recovery_mode) {
        Some(mode) => mode,
        None => {
            return Err(FfiStatus::InvalidArgument);
        },
    };
    if config.path_count == 0 || config.path_count as usize > MAX_PATHS || config.packet_capacity == 0
        || config.packet_capacity > MAX_ENGINE_PACKET_CAPACITY || config.mtu < MIN_QUIC_PAYLOAD as u32 || config.mtu
        > MAX_QUIC_PAYLOAD as u32 {
        return Err(FfiStatus::InvalidArgument);
    }
    assert(config.path_count * 2 * config.packet_capacity <= 4 * 4096) by (nonlinear_arith)
        requires
            config.path_count <= 2,
            config.packet_capacity <= 4096,
    ;
    let slots: u64 = config.path_count as u64 * 2 * config.packet_capacity as u64;
    assert(slots * config.mtu <= 4 * 4096 * 65_527) by (nonlinear_arith)
        requires
            slots <= 4 * 4096,
            config.mtu <= 65_527,
    ;
    let queue_bytes: u64 = slots * config.mtu as u64;
    if queue_bytes > MAX_ENGINE_QUEUE_BYTES as u64 {
        return Err(FfiStatus::InvalidArgument);
    }
    let mut paths: Vec<PathAddresses> = Vec::new();
    let mut at: usize = 0;
    while at < config.path_count as usize
        invariant
            at == paths@.len(),
            at <= config.path_count <= MAX_PATHS,
            forall|i: int|
                0 <= i < at ==> path_accepted(#[trigger] config.paths@[i]) && paths@[i] == addresses_of(
                    config.paths@[i],
                ),
        decreases config.path_count - at,
    {
        match read_path(&config.paths[at]) {
            Some(path) => {
                paths.push(path);
            },
            None => {
                assert(!path_accepted(config.paths@[at as int]));
                return Err(FfiStatus::InvalidArgument);
            },
        }
        at += 1;
    }
    assert(paths@ =~= Seq::new(config.path_count as nat, |i: int| addresses_of(config.paths@[i])));
    Ok(
        EngineSettings {
            role,
            recovery_mode,
            capacity: config.packet_capacity as usize,
            mtu: config.mtu as usize,
            paths,
        },
    )
}

// ---------------------------------------------------------------------------
// The endpoint behind the engine
// ---------------------------------------------------------------------------

/// The endpoint that an engine starts.
#[derive(Debug)]
pub enum EndpointPlan {
    /// A client that connects.
    Client(ClientConfig),
    /// A server that accepts.
    Server(ServerConfig),
}

/// Whether a carrier policy is the default one.
pub open spec fn default_carrier(carrier: CarrierPolicyModel) -> bool {
    &&& carrier.cookie_secret_file.text@ == "/etc/quicp/carrier-cookie.secret"@
    &&& carrier.cookie_secret_file.absolute
    &&& !carrier.packet_socket
}

/// The default transport policy with another recovery policy.
pub open spec fn engine_transport(mode: RecoveryMode) -> QuicpTransportConfig {
    let default = transport::default_transport();
    QuicpTransportConfig {
        recovery: crate::config::transport::RecoveryConfig { mode, ..default.recovery },
        ..default
    }
}

/// The paths of a client.
pub open spec fn client_paths(paths: Seq<PathAddresses>) -> MultipathModel {
    MultipathModel {
        mode: if paths.len() == 1 {
            MultipathMode::Off
        } else {
            MultipathMode::Failover
        },
        candidates: Seq::new(paths.len(), |at: int| PathCandidate::of(paths[at].local.ip, paths[at].peer)),
    }
}

/// Whether this is the client configuration that an engine asks for.
pub open spec fn client_asked(
    paths: Seq<PathAddresses>,
    mode: RecoveryMode,
    security: FfiSecurity,
    given: ClientModel,
) -> bool {
    &&& given.tls == (match security {
        FfiSecurity::ClientTls(settings) => Some(settings@),
        _ => None,
    })
    &&& given.allow_insecure == (security is Insecure)
    &&& given.multipath == client_paths(paths)
    &&& default_carrier(given.carrier)
    &&& given.transport == engine_transport(mode)
}

/// Whether this is the server configuration that an engine asks for.
pub open spec fn server_asked(
    paths: Seq<PathAddresses>,
    mode: RecoveryMode,
    security: FfiSecurity,
    given: ServerModel,
) -> bool {
    &&& given.listen_addrs == Seq::new(paths.len(), |at: int| paths[at].local)
    &&& given.tls == (match security {
        FfiSecurity::ServerTls(settings) => Some(settings@),
        _ => None,
    })
    &&& given.allow_insecure == (security is Insecure)
    &&& default_carrier(given.carrier)
    &&& given.transport == engine_transport(mode)
}

/// What comes of the endpoint of an engine: security that is not for its role is refused, and
/// so is a configuration that breaks a rule.
pub open spec fn planned(
    role: FfiRole,
    mode: RecoveryMode,
    security: FfiSecurity,
    paths: Seq<PathAddresses>,
    result: Result<EndpointPlan, FfiStatus>,
) -> bool {
    let invalid = Err::<EndpointPlan, FfiStatus>(FfiStatus::InvalidArgument);
    match role {
        FfiRole::Client => if security is ServerTls {
            result == invalid
        } else {
            exists|given: ClientModel| #[trigger]
                client_asked(paths, mode, security, given) && match endpoint::client_refusal(given) {
                    Some(_) => result == invalid,
                    None => result matches Ok(EndpointPlan::Client(config)) && config.wf() && config@ == given,
                }
        },
        FfiRole::Server => if security is ClientTls {
            result == invalid
        } else {
            exists|given: ServerModel| #[trigger]
                server_asked(paths, mode, security, given) && match endpoint::server_refusal(given) {
                    Some(_) => result == invalid,
                    None => result matches Ok(EndpointPlan::Server(config)) && config.wf() && config@ == given,
                }
        },
    }
}

fn transport_for(mode: RecoveryMode) -> (config: QuicpTransportConfig)
    ensures
        config == engine_transport(mode),
        config.wf(),
{
    proof {
        transport::law_default_transport_is_accepted();
    }
    let mut config: QuicpTransportConfig = QuicpTransportConfig::default();
    config.recovery.mode = mode;
    config
}

/// Puts the paths of a client together.
fn plan_paths(paths: &Vec<PathAddresses>) -> (multipath: Option<Multipath>)
    requires
        1 <= paths@.len() <= 2,
    ensures
        match multipath {
            Some(planned) => multipath::multipath_refusal(client_paths(paths@)) is None && planned@ == client_paths(
                paths@,
            ),
            None => multipath::multipath_refusal(client_paths(paths@)) is Some,
        },
{
    let ghost model = client_paths(paths@);
    proof {
        PathCandidate::lemma_of(paths@[0].local.ip, paths@[0].peer);
        assert(model.candidates.skip(1).len() == paths@.len() - 1);
        if paths@.len() == 2 {
            PathCandidate::lemma_of(paths@[1].local.ip, paths@[1].peer);
            assert(model.candidates.skip(1)[0] == model.candidates[1]);
            assert(model.candidates.skip(1).skip(1).len() == 0);
            reveal_with_fuel(multipath::candidates_refusal, 3);
        } else {
            reveal_with_fuel(multipath::candidates_refusal, 2);
        }
    }
    let primary: PathCandidate = match PathCandidate::new(paths[0].local.ip, paths[0].peer) {
        Ok(candidate) => candidate,
        Err(_) => {
            return None;
        },
    };
    proof {
        primary.lemma_candidate(model.candidates[0]);
    }
    if paths.len() == 1 {
        assert(seq![primary] =~= model.candidates);
        match Multipath::single(primary) {
            Ok(multipath) => Some(multipath),
            Err(_) => None,
        }
    } else {
        let backup: PathCandidate = match PathCandidate::new(paths[1].local.ip, paths[1].peer) {
            Ok(candidate) => candidate,
            Err(_) => {
                return None;
            },
        };
        proof {
            backup.lemma_candidate(model.candidates[1]);
            assert(seq![primary, backup] =~= model.candidates);
        }
        match Multipath::failover(primary, backup) {
            Ok(multipath) => Some(multipath),
            Err(_) => None,
        }
    }
}

fn plan_client(mode: RecoveryMode, security: FfiSecurity, paths: &Vec<PathAddresses>) -> (result: Result<
    EndpointPlan,
    FfiStatus,
>)
    requires
        1 <= paths@.len() <= 2,
    ensures
        planned(FfiRole::Client, mode, security, paths@, result),
{
    let ghost asked = security;
    let carrier = CarrierConfig::default();
    let ghost given = ClientModel {
        tls: match asked {
            FfiSecurity::ClientTls(settings) => Some(settings@),
            _ => None,
        },
        allow_insecure: asked is Insecure,
        multipath: client_paths(paths@),
        carrier: carrier@,
        transport: engine_transport(mode),
    };
    proof {
        if !(asked is ServerTls) {
            assert(client_asked(paths@, mode, asked, given));
        }
        transport::law_default_transport_is_accepted();
    }
    let multipath: Multipath = match plan_paths(paths) {
        Some(multipath) => multipath,
        None => {
            return Err(FfiStatus::InvalidArgument);
        },
    };
    let created = match security {
        FfiSecurity::Insecure => ClientConfig::insecure(multipath, carrier),
        FfiSecurity::ClientTls(settings) => ClientConfig::with_tls(settings, multipath, carrier),
        FfiSecurity::ServerTls(_) => {
            return Err(FfiStatus::InvalidArgument);
        },
    };
    let config: ClientConfig = match created {
        Ok(config) => config,
        Err(_) => {
            return Err(FfiStatus::InvalidArgument);
        },
    };
    match config.with_transport(transport_for(mode)) {
        Ok(config) => Ok(EndpointPlan::Client(config)),
        Err(_) => Err(FfiStatus::InvalidArgument),
    }
}

fn plan_server(mode: RecoveryMode, security: FfiSecurity, paths: &Vec<PathAddresses>) -> (result: Result<
    EndpointPlan,
    FfiStatus,
>)
    ensures
        planned(FfiRole::Server, mode, security, paths@, result),
{
    let ghost asked = security;
    let mut listen: Vec<SocketAddress> = Vec::new();
    let mut at: usize = 0;
    while at < paths.len()
        invariant
            at == listen@.len(),
            at <= paths@.len(),
            forall|i: int| 0 <= i < at ==> #[trigger] listen@[i] == paths@[i].local,
        decreases paths@.len() - at,
    {
        listen.push(paths[at].local);
        at += 1;
    }
    assert(listen@ =~= Seq::new(paths@.len(), |i: int| paths@[i].local));
    let carrier = CarrierConfig::default();
    let ghost given = ServerModel {
        listen_addrs: listen@,
        tls: match asked {
            FfiSecurity::ServerTls(settings) => Some(settings@),
            _ => None,
        },
        allow_insecure: asked is Insecure,
        carrier: carrier@,
        transport: engine_transport(mode),
    };
    proof {
        if !(asked is ClientTls) {
            assert(server_asked(paths@, mode, asked, given));
        }
        transport::law_default_transport_is_accepted();
    }
    let created = match security {
        FfiSecurity::Insecure => ServerConfig::insecure(listen, carrier),
        FfiSecurity::ServerTls(settings) => ServerConfig::with_tls(listen, settings, carrier),
        FfiSecurity::ClientTls(_) => {
            return Err(FfiStatus::InvalidArgument);
        },
    };
    let config: ServerConfig = match created {
        Ok(config) => config,
        Err(_) => {
            return Err(FfiStatus::InvalidArgument);
        },
    };
    match config.with_transport(transport_for(mode)) {
        Ok(config) => Ok(EndpointPlan::Server(config)),
        Err(_) => Err(FfiStatus::InvalidArgument),
    }
}

/// Plans the endpoint of an engine.
pub fn start(role: FfiRole, mode: RecoveryMode, security: FfiSecurity, paths: &Vec<PathAddresses>) -> (result: Result<
    EndpointPlan,
    FfiStatus,
>)
    requires
        1 <= paths@.len() <= 2,
    ensures
        planned(role, mode, security, paths@, result),
{
    match role {
        FfiRole::Client => plan_client(mode, security, paths),
        FfiRole::Server => plan_server(mode, security, paths),
    }
}

// ---------------------------------------------------------------------------
// The engine
// ---------------------------------------------------------------------------

/// One engine. `F` is a flow and `P` a pending request, as the transport holds them.
#[derive(Debug)]
pub struct FfiEngine<F, P> {
    /// The role.
    pub role: FfiRole,
    /// What runs the tasks.
    pub runtime: HostRuntime,
    /// The paths.
    pub sockets: Vec<HostDatagramSocket>,
    /// How far the connection has come.
    pub connection: ConnectionState,
    /// Whether a flow is being opened.
    pub open: OpenState,
    /// Whether a request waits.
    pub accept: AcceptState<P>,
    /// The flows.
    pub flows: FlowTable<F>,
    /// Whether there is a replay policy.
    pub replay_admission: bool,
}

/// The sockets of paths, empty and available.
pub open spec fn fresh_sockets(
    sockets: Seq<HostDatagramSocket>,
    paths: Seq<PathAddresses>,
    capacity: int,
    mtu: int,
) -> bool {
    &&& sockets.len() == paths.len()
    &&& forall|at: int|
        0 <= at < sockets.len() ==> (#[trigger] sockets[at]).wf() && sockets[at]@ == (HostSocketModel {
            local: paths[at].local,
            peer: paths[at].peer,
            mtu,
            capacity,
            ingress: Seq::empty(),
            egress: Seq::empty(),
            unavailable: false,
            receiver_waits: false,
            sender_waits: false,
        })
}

impl<F, P> FfiEngine<F, P> {
    /// The runtime and every path are well formed.
    pub open spec fn wf(&self) -> bool {
        &&& self.runtime.wf()
        &&& forall|at: int| 0 <= at < self.sockets@.len() ==> (#[trigger] self.sockets@[at]).wf()
    }

    /// Sets an engine up. Nothing runs yet: the endpoint that comes with the engine is to be
    /// started as its first task.
    pub fn new(config: &FfiEngineConfig, security: FfiSecurity) -> (result: Result<(Self, EndpointPlan), FfiStatus>)
        ensures
            match result {
                Err(status) => {
                    &&& status == FfiStatus::InvalidArgument
                    &&& config_accepted(*config) ==> exists|settings: EngineSettings| #[trigger]
                        settings_of(*config, settings) && planned(
                            settings.role,
                            settings.recovery_mode,
                            security,
                            settings.paths@,
                            Err::<EndpointPlan, FfiStatus>(FfiStatus::InvalidArgument),
                        )
                },
                Ok((engine, plan)) => {
                    &&& config_accepted(*config)
                    &&& engine.wf()
                    &&& exists|settings: EngineSettings| #[trigger]
                        settings_of(*config, settings) && planned(
                            settings.role,
                            settings.recovery_mode,
                            security,
                            settings.paths@,
                            Ok::<EndpointPlan, FfiStatus>(plan),
                        ) && engine.role == settings.role && fresh_sockets(
                            engine.sockets@,
                            settings.paths@,
                            settings.capacity as int,
                            settings.mtu as int,
                        )
                    &&& engine.runtime@ == host_runtime::fresh_runtime()
                    &&& engine.connection == ConnectionState::Connecting
                    &&& engine.open@ == OpenProgress::Idle
                    &&& engine.accept == AcceptState::<P>::Idle
                    &&& engine.flows.slots@.len() == 0
                    &&& !engine.replay_admission
                },
            },
    {
        let settings: EngineSettings = match read_config(config) {
            Ok(settings) => settings,
            Err(status) => {
                return Err(status);
            },
        };
        proof {
            assert(settings_of(*config, settings));
        }
        assert(settings.capacity * settings.mtu <= 4096 * 65_527) by (nonlinear_arith)
            requires
                settings.capacity <= 4096,
                settings.mtu <= 65_527,
        ;
        let mut sockets: Vec<HostDatagramSocket> = Vec::new();
        let mut at: usize = 0;
        while at < settings.paths.len()
            invariant
                at == sockets@.len(),
                at <= settings.paths@.len(),
                config_accepted(*config),
                settings_of(*config, settings),
                settings.capacity * settings.mtu <= 4096 * 65_527,
                forall|i: int|
                    0 <= i < at ==> (#[trigger] sockets@[i]).wf() && sockets@[i]@ == (HostSocketModel {
                        local: settings.paths@[i].local,
                        peer: settings.paths@[i].peer,
                        mtu: settings.mtu as int,
                        capacity: settings.capacity as int,
                        ingress: Seq::empty(),
                        egress: Seq::empty(),
                        unavailable: false,
                        receiver_waits: false,
                        sender_waits: false,
                    }),
            decreases settings.paths@.len() - at,
        {
            let path: PathAddresses = settings.paths[at];
            match HostDatagramSocket::new(path.local, path.peer, settings.capacity, settings.mtu) {
                Ok(socket) => {
                    sockets.push(socket);
                },
                Err(_) => {
                    return Err(FfiStatus::InvalidArgument);
                },
            }
            at += 1;
        }
        match start(settings.role, settings.recovery_mode, security, &settings.paths) {
            Ok(plan) => Ok(
                (
                    FfiEngine {
                        role: settings.role,
                        runtime: HostRuntime::new(),
                        sockets,
                        connection: ConnectionState::Connecting,
                        open: OpenState::Idle,
                        accept: AcceptState::Idle,
                        flows: FlowTable::new(),
                        replay_admission: false,
                    },
                    plan,
                ),
            ),
            Err(_) => Err(FfiStatus::InvalidArgument),
        }
    }
}

/// What a call that drives the engine answers.
#[derive(Clone, Copy, Debug, PartialEq, Eq, Structural)]
pub struct DriveReport {
    /// The status.
    pub status: FfiStatus,
    /// How many tasks were polled, where the drive ended well.
    pub processed: Option<u32>,
    /// Whether the established connection is to be closed.
    pub close: bool,
}

/// What a call that drives the engine answers, given how the drive ended. A task that
/// panicked takes the connection down for good.
pub open spec fn drive_report(
    connection: ConnectionState,
    outcome: Result<usize, HostRuntimeError>,
) -> (DriveReport, ConnectionState) {
    match outcome {
        Ok(count) => (
            DriveReport {
                status: FfiStatus::Completed,
                processed: Some(accept::told_length(count as int)),
                close: false,
            },
            connection,
        ),
        Err(HostRuntimeError::TaskPanicked) => (
            DriveReport { status: FfiStatus::Failed, processed: None, close: connection is Ready },
            ConnectionState::Failed,
        ),
        Err(HostRuntimeError::Closed) => (
            DriveReport { status: FfiStatus::Closed, processed: None, close: false },
            connection,
        ),
        Err(_) => (
            DriveReport { status: FfiStatus::InvalidArgument, processed: None, close: false },
            connection,
        ),
    }
}

/// What a call that asks for the next timer answers: whether there is one, and its deadline
/// in nanoseconds as far as that can be told in 64 bits.
pub open spec fn timer_report(deadline: Option<Duration>) -> (u32, u64) {
    match deadline {
        None => (0, 0),
        Some(at) => (
            1,
            if at.length() > u64::MAX {
                u64::MAX
            } else {
                at.length() as u64
            },
        ),
    }
}

/// What a path makes of a datagram that comes from its peer.
pub open spec fn ingress_outcome(path: HostSocketModel, packet: Seq<u8>) -> Result<bool, HostDatagramError> {
    match host_carrier::ingress_refusal(path, path.peer, packet.len() as int) {
        Some(error) => Err(error),
        None => Ok(path.receiver_waits),
    }
}

/// What a path hands out into a buffer of `room` bytes.
pub open spec fn egress_outcome(path: HostSocketModel, room: int) -> Result<Option<(usize, bool)>, HostDatagramError> {
    if path.unavailable {
        Err(HostDatagramError::Unavailable)
    } else if path.egress.len() == 0 {
        Ok(None)
    } else if path.egress[0].len() > room {
        Err(HostDatagramError::BufferTooSmall { required: path.egress[0].len() as usize, capacity: room as usize })
    } else {
        Ok(Some((path.egress[0].len() as usize, path.sender_waits)))
    }
}

/// The status of a datagram that was pushed into a path.
pub open spec fn ingress_status(outcome: Result<bool, HostDatagramError>) -> FfiStatus {
    match outcome {
        Ok(_) => FfiStatus::Completed,
        Err(HostDatagramError::QueueFull) => FfiStatus::WouldBlock,
        Err(_) => FfiStatus::InvalidArgument,
    }
}

/// What a call that takes a datagram from a path answers.
#[derive(Clone, Copy, Debug, PartialEq, Eq, Structural)]
pub struct EgressReport {
    /// The status.
    pub status: FfiStatus,
    /// The length of the datagram, where there is one.
    pub length: Option<u32>,
    /// Whether the writer of the path is to be woken.
    pub wake: bool,
}

/// What a call that takes a datagram from a path answers.
pub open spec fn egress_report(outcome: Result<Option<(usize, bool)>, HostDatagramError>) -> EgressReport {
    match outcome {
        Ok(Some((count, wake))) => EgressReport {
            status: FfiStatus::Completed,
            length: Some(accept::told_length(count as int)),
            wake,
        },
        Ok(None) => EgressReport { status: FfiStatus::WouldBlock, length: None, wake: false },
        Err(HostDatagramError::BufferTooSmall { required, .. }) => EgressReport {
            status: FfiStatus::BufferTooSmall,
            length: Some(accept::told_length(required as int)),
            wake: false,
        },
        Err(_) => EgressReport { status: FfiStatus::Failed, length: None, wake: false },
    }
}

/// How a flow answered.
#[derive(Clone, Copy, Debug, PartialEq, Eq, Structural)]
pub enum FlowPoll {
    /// It is done; so many bytes moved.
    Ready(usize),
    /// It failed.
    Failed,
    /// It has to be asked again.
    Pending,
}

/// What a call on a flow answers: the status, and how many bytes moved. A handle without a
/// flow is closed.
pub open spec fn flow_report(answer: Option<FlowPoll>) -> (FfiStatus, Option<u32>) {
    match answer {
        None => (FfiStatus::Closed, None),
        Some(FlowPoll::Ready(count)) => (FfiStatus::Completed, Some(accept::told_length(count as int))),
        Some(FlowPoll::Failed) => (FfiStatus::Failed, None),
        Some(FlowPoll::Pending) => (FfiStatus::WouldBlock, None),
    }
}

/// What a call on a flow answers.
pub fn report_flow(answer: Option<FlowPoll>) -> (report: (FfiStatus, Option<u32>))
    ensures
        report == flow_report(answer),
{
    match answer {
        None => (FfiStatus::Closed, None),
        Some(FlowPoll::Ready(count)) => (FfiStatus::Completed, Some(tell_length(count))),
        Some(FlowPoll::Failed) => (FfiStatus::Failed, None),
        Some(FlowPoll::Pending) => (FfiStatus::WouldBlock, None),
    }
}

/// What a call that closes a flow answers: `reset` is how its reset went, where it was there.
pub fn report_close(reset: Option<bool>) -> (status: FfiStatus)
    ensures
        status == (match reset {
            None => FfiStatus::Closed,
            Some(true) => FfiStatus::Completed,
            Some(false) => FfiStatus::Failed,
        }),
{
    match reset {
        None => FfiStatus::Closed,
        Some(done) => {
            if done {
                FfiStatus::Completed
            } else {
                FfiStatus::Failed
            }
        },
    }
}

/// Whether the input of a call is there, not empty, and not in the engine.
pub open spec fn input_valid(engine: Pointer, input: Buffer) -> bool {
    input.address != 0 && input.length != 0 && memory::apart(engine.region(), input.region())
}

/// Checks the input of a call.
pub fn check_input(engine: Pointer, input: Buffer) -> (valid: bool)
    ensures
        valid == input_valid(engine, input),
{
    input.address != 0 && input.length != 0 && disjoint(region_of(engine), buffer_region(input))
}

/// Checks the two outputs of a call that asks for the next timer: both may be written, and
/// they do not overlap.
pub fn check_timer_outputs(engine: Pointer, present: Pointer, elapsed: Pointer) -> (valid: bool)
    requires
        present.align > 0,
        elapsed.align > 0,
    ensures
        valid == (memory::output_valid(engine, present) && memory::output_valid(engine, elapsed) && memory::apart(
            present.region(),
            elapsed.region(),
        )),
{
    valid_engine_output(engine, present) && valid_engine_output(engine, elapsed) && disjoint(
        region_of(present),
        region_of(elapsed),
    )
}

/// Checks the memory of a call that creates an engine: the values are there and aligned, the
/// place for the engine may be written, and nothing overlaps.
pub fn check_create(config: Pointer, output: Pointer) -> (valid: bool)
    requires
        config.align > 0,
        output.align > 0,
    ensures
        valid == (config.valid() && output.valid() && memory::apart(config.region(), output.region())),
{
    valid_mut(config) && valid_mut(output) && disjoint(region_of(config), region_of(output))
}

/// Checks the memory of a call that creates an engine with TLS.
pub fn check_create_tls(config: Pointer, tls: Pointer, output: Pointer) -> (valid: bool)
    requires
        config.align > 0,
        tls.align > 0,
        output.align > 0,
    ensures
        valid == (config.valid() && tls.valid() && output.valid() && memory::apart(config.region(), tls.region())
            && memory::apart(config.region(), output.region()) && memory::apart(tls.region(), output.region())),
{
    valid_mut(config) && valid_mut(tls) && valid_mut(output) && disjoint(region_of(config), region_of(tls))
        && disjoint(region_of(config), region_of(output)) && disjoint(region_of(tls), region_of(output))
}

/// Why an engine cannot be closed, if it cannot: the owner's variable has to be valid, to
/// hold an engine, and not to be in it.
pub fn check_close(owner: Pointer, engine: Pointer) -> (refusal: Option<FfiStatus>)
    requires
        owner.align > 0,
        engine.align > 0,
    ensures
        refusal == (if !owner.valid() {
            Some(FfiStatus::InvalidArgument)
        } else if engine.address == 0 {
            Some(FfiStatus::Closed)
        } else if !engine.valid() || !memory::apart(owner.region(), engine.region()) {
            Some(FfiStatus::InvalidArgument)
        } else {
            None
        }),
{
    if !valid_mut(owner) {
        return Some(FfiStatus::InvalidArgument);
    }
    if engine.address == 0 {
        return Some(FfiStatus::Closed);
    }
    if !valid_mut(engine) || !disjoint(region_of(owner), region_of(engine)) {
        return Some(FfiStatus::InvalidArgument);
    }
    None
}

/// Whether the memory of a call that issues a token is acceptable: the length may be written,
/// and a buffer that is not empty is there and overlaps nothing.
pub open spec fn token_memory_valid(engine: Pointer, output: Buffer, length: Pointer) -> bool {
    &&& memory::output_valid(engine, length)
    &&& output.length != 0 ==> output.address != 0 && memory::apart(engine.region(), output.region())
        && memory::apart(output.region(), length.region())
}

/// What a call that issues a token tells of it: the length, and whether the buffer holds it.
pub open spec fn token_told(token: Seq<u8>, room: int) -> (FfiStatus, Option<u32>) {
    if token.len() > u32::MAX {
        (FfiStatus::Failed, None)
    } else if room < token.len() {
        (FfiStatus::BufferTooSmall, Some(token.len() as u32))
    } else {
        (FfiStatus::Completed, Some(token.len() as u32))
    }
}

/// Copies a token to the caller's buffer, where it fits.
pub fn tell_token(token: &[u8], output: &mut [u8]) -> (report: (FfiStatus, Option<u32>))
    ensures
        report == token_told(token@, old(output)@.len() as int),
        final(output)@ == (if report.0 == FfiStatus::Completed {
            token@ + old(output)@.skip(token@.len() as int)
        } else {
            old(output)@
        }),
{
    if token.len() as u64 > 0xffff_ffff {
        return (FfiStatus::Failed, None);
    }
    let required: u32 = token.len() as u32;
    if output.len() < token.len() {
        return (FfiStatus::BufferTooSmall, Some(required));
    }
    put(output, 0, token);
    assert(output@ =~= token@ + old(output)@.skip(token@.len() as int));
    (FfiStatus::Completed, Some(required))
}

impl<F, P> FfiEngine<F, P> {
    /// Whether nothing of an engine changed but its connection.
    pub open spec fn same_but_connection(&self, other: &Self) -> bool {
        *self == (FfiEngine { connection: self.connection, ..*other })
    }

    /// What a call that drives the engine answers. A task that panicked takes the connection
    /// down for good.
    pub fn after_drive(&mut self, outcome: Result<usize, HostRuntimeError>) -> (report: DriveReport)
        ensures
            (report, final(self).connection) == drive_report(old(self).connection, outcome),
            final(self).same_but_connection(old(self)),
    {
        match outcome {
            Ok(count) => DriveReport {
                status: FfiStatus::Completed,
                processed: Some(tell_length(count)),
                close: false,
            },
            Err(HostRuntimeError::TaskPanicked) => {
                let close: bool = self.connection == ConnectionState::Ready;
                self.connection = ConnectionState::Failed;
                DriveReport { status: FfiStatus::Failed, processed: None, close }
            },
            Err(HostRuntimeError::Closed) => DriveReport { status: FfiStatus::Closed, processed: None, close: false },
            Err(_) => DriveReport { status: FfiStatus::InvalidArgument, processed: None, close: false },
        }
    }

    /// Records whether the connection came about.
    pub fn finish_connect(&mut self, established: bool)
        ensures
            final(self).connection == (if established {
                ConnectionState::Ready
            } else {
                ConnectionState::Failed
            }),
            final(self).same_but_connection(old(self)),
    {
        self.connection = if established {
            ConnectionState::Ready
        } else {
            ConnectionState::Failed
        };
    }

    /// What a call that asks for the next timer answers.
    pub fn next_timer(&self) -> (report: (u32, u64))
        requires
            self.wf(),
        ensures
            report == timer_report(
                if self.runtime@.stopped {
                    None
                } else {
                    host_runtime::earliest(self.runtime@.timers)
                },
            ),
    {
        match self.runtime.next_timer() {
            None => (0, 0),
            Some(at) => {
                let nanoseconds: u128 = at.seconds as u128 * 1_000_000_000 + at.nanoseconds as u128;
                let told: u64 = if nanoseconds > 0xffff_ffff_ffff_ffff {
                    u64::MAX
                } else {
                    nanoseconds as u64
                };
                (1, told)
            },
        }
    }

    /// What a call that asks for progress answers.
    pub fn connection_state(&self, closed: bool) -> (status: FfiStatus)
        ensures
            status == state::progress(self.connection, closed),
    {
        self.connection.report(closed)
    }

    /// Whether only the path at an index changed.
    pub open spec fn same_but_path(&self, other: &Self, path: int) -> bool {
        &&& *self == (FfiEngine { sockets: self.sockets, ..*other })
        &&& self.sockets@.len() == other.sockets@.len()
        &&& forall|at: int|
            0 <= at < self.sockets@.len() && at != path ==> #[trigger] self.sockets@[at] == other.sockets@[at]
    }

    /// Pushes one complete underlay datagram into a path. The second part of the result says
    /// whether the reader of the path is to be woken.
    pub fn ingress(&mut self, path: u32, packet: &[u8]) -> (report: (FfiStatus, bool))
        requires
            old(self).wf(),
        ensures
            final(self).wf(),
            if path < old(self).sockets@.len() {
                let before = old(self).sockets@[path as int]@;
                let outcome = ingress_outcome(before, packet@);
                &&& host_carrier::ingress_done(
                    before,
                    before.peer,
                    packet@,
                    outcome,
                    final(self).sockets@[path as int]@,
                )
                &&& report == (ingress_status(outcome), outcome == Ok::<bool, HostDatagramError>(true))
                &&& final(self).same_but_path(old(self), path as int)
            } else {
                report == (FfiStatus::InvalidArgument, false) && *final(self) == *old(self)
            },
    {
        let index: usize = path as usize;
        if index >= self.sockets.len() {
            return (FfiStatus::InvalidArgument, false);
        }
        let outcome = self.sockets[index].ingress_datagram(packet);
        match outcome {
            Ok(wake) => (FfiStatus::Completed, wake),
            Err(HostDatagramError::QueueFull) => (FfiStatus::WouldBlock, false),
            Err(_) => (FfiStatus::InvalidArgument, false),
        }
    }

    /// Takes one complete underlay datagram from a path.
    pub fn egress(&mut self, path: u32, output: &mut [u8]) -> (report: EgressReport)
        requires
            old(self).wf(),
        ensures
            final(self).wf(),
            if path < old(self).sockets@.len() {
                let before = old(self).sockets@[path as int]@;
                let outcome = egress_outcome(before, old(output)@.len() as int);
                &&& host_carrier::egress_done(
                    before,
                    old(output)@,
                    outcome,
                    final(self).sockets@[path as int]@,
                    final(output)@,
                )
                &&& report == egress_report(outcome)
                &&& final(self).same_but_path(old(self), path as int)
            } else {
                &&& report == (EgressReport { status: FfiStatus::InvalidArgument, length: None, wake: false })
                &&& *final(self) == *old(self)
                &&& final(output)@ == old(output)@
            },
    {
        let index: usize = path as usize;
        if index >= self.sockets.len() {
            return EgressReport { status: FfiStatus::InvalidArgument, length: None, wake: false };
        }
        let outcome = self.sockets[index].poll_egress_datagram_into(output);
        match outcome {
            Ok(Some((count, wake))) => EgressReport {
                status: FfiStatus::Completed,
                length: Some(tell_length(count)),
                wake,
            },
            Ok(None) => EgressReport { status: FfiStatus::WouldBlock, length: None, wake: false },
            Err(HostDatagramError::BufferTooSmall { required, .. }) => EgressReport {
                status: FfiStatus::BufferTooSmall,
                length: Some(tell_length(required)),
                wake: false,
            },
            Err(_) => EgressReport { status: FfiStatus::Failed, length: None, wake: false },
        }
    }

    /// Permanently marks one path unavailable. The second part of the result says who is to
    /// be woken.
    pub fn path_unavailable(&mut self, path: u32) -> (report: (FfiStatus, Wakes))
        requires
            old(self).wf(),
        ensures
            final(self).wf(),
            if path < old(self).sockets@.len() {
                let before = old(self).sockets@[path as int]@;
                &&& report.0 == FfiStatus::Completed
                &&& report.1.receiver == (!before.unavailable && before.receiver_waits)
                &&& report.1.sender == (!before.unavailable && before.sender_waits)
                &&& final(self).sockets@[path as int]@ == host_carrier::withdrawn(before)
                &&& final(self).same_but_path(old(self), path as int)
            } else {
                &&& report == (FfiStatus::InvalidArgument, (Wakes { receiver: false, sender: false }))
                &&& *final(self) == *old(self)
            },
    {
        let index: usize = path as usize;
        if index >= self.sockets.len() {
            return (FfiStatus::InvalidArgument, Wakes { receiver: false, sender: false });
        }
        let wakes = self.sockets[index].mark_unavailable();
        (FfiStatus::Completed, wakes)
    }

    /// Whether a secret of a replay policy may be read: the engine is a server, and the
    /// secret is there, has a length within the bounds, and is not in the engine.
    pub fn check_replay_secret(&self, engine: Pointer, secret: Buffer) -> (valid: bool)
        ensures
            valid == (self.role == FfiRole::Server && secret.address != 0 && MIN_REPLAY_SECRET_BYTES <= secret.length
                <= MAX_FFI_STRING_BYTES && memory::apart(engine.region(), secret.region())),
    {
        self.role == FfiRole::Server && secret.address != 0 && secret.length >= MIN_REPLAY_SECRET_BYTES
            && secret.length <= MAX_FFI_STRING_BYTES && disjoint(region_of(engine), buffer_region(secret))
    }

    /// Installs a replay policy, once. `accepted` says whether the policy itself is sound.
    pub fn configure_replay_admission(&mut self, accepted: bool) -> (status: FfiStatus)
        ensures
            if accepted && !old(self).replay_admission {
                status == FfiStatus::Completed && *final(self) == (FfiEngine { replay_admission: true, ..*old(self) })
            } else {
                status == FfiStatus::InvalidArgument && *final(self) == *old(self)
            },
    {
        if !accepted || self.replay_admission {
            return FfiStatus::InvalidArgument;
        }
        self.replay_admission = true;
        FfiStatus::Completed
    }

    /// Why no token can be issued, if none can. A policy has to be there, and the connection
    /// to be established.
    pub fn check_token(&self, engine: Pointer, output: Buffer, length: Pointer) -> (refusal: Option<FfiStatus>)
        requires
            length.align > 0,
        ensures
            refusal == (if self.role != FfiRole::Server || !token_memory_valid(engine, output, length)
                || !self.replay_admission {
                Some(FfiStatus::InvalidArgument)
            } else if self.connection != ConnectionState::Ready {
                Some(FfiStatus::NotReady)
            } else {
                None
            }),
    {
        if self.role != FfiRole::Server || !valid_engine_output(engine, length) || (output.length != 0 && (
        output.address == 0 || !disjoint(region_of(engine), buffer_region(output)) || !disjoint(
            buffer_region(output),
            region_of(length),
        ))) || !self.replay_admission {
            return Some(FfiStatus::InvalidArgument);
        }
        if self.connection != ConnectionState::Ready {
            return Some(FfiStatus::NotReady);
        }
        None
    }
}

/// A task that panicked takes the connection down for good: whatever the connection was, it
/// has failed afterwards, and every call that needs it fails.
pub proof fn law_task_panic_latches_failure(connection: ConnectionState, closed: bool)
    ensures
        ({
            let (report, after) = drive_report(connection, Err::<usize, HostRuntimeError>(HostRuntimeError::TaskPanicked));
            &&& report.status == FfiStatus::Failed
            &&& state::progress(after, closed) == FfiStatus::Failed
            &&& state::unusable(after, closed) == Some(FfiStatus::Failed)
        }),
{
}

/// A drive that another drive overlaps is refused, and leaves the connection as it was.
pub proof fn law_concurrent_drive_is_harmless(connection: ConnectionState)
    ensures
        drive_report(connection, Err::<usize, HostRuntimeError>(HostRuntimeError::ConcurrentDrive)) == (
            DriveReport { status: FfiStatus::InvalidArgument, processed: None, close: false },
            connection,
        ),
{
}

}
