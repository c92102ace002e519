//! Client and server configuration snapshots.
use crate::address::SocketAddress;
use crate::config::carrier;
use crate::config::carrier::{CarrierConfig, CarrierPolicyModel};
use crate::config::error::ConfigError;
use crate::config::multipath;
use crate::config::multipath::{Multipath, MultipathModel};
use crate::config::tls;
use crate::config::tls::{ClientTls, ClientTlsModel, ServerTls, ServerTlsModel};
use crate::config::transport;
use crate::config::transport::QuicpTransportConfig;
use vstd::prelude::*;

verus! {

/// Whether the library is built with a TLS backend.
pub const TLS_BACKEND: bool = true;

/// Why a security profile is refused, if it is: it has to be TLS where there is a backend
/// for it, or the explicit opt-out, and not both.
pub open spec fn profile_refusal(tls_configured: bool, allow_insecure: bool, tls_backend: bool) -> Option<ConfigError> {
    if !tls_configured && !allow_insecure {
        Some(ConfigError::InsecureProfileRequiresOptIn)
    } else if tls_configured && allow_insecure {
        Some(ConfigError::TlsWithInsecureOptIn)
    } else if tls_configured && !tls_backend {
        Some(ConfigError::TlsFeatureDisabled)
    } else {
        None
    }
}

/// Checks a security profile.
pub fn validate_security_profile(tls_configured: bool, allow_insecure: bool, tls_backend: bool) -> (result: Result<
    (),
    ConfigError,
>)
    ensures
        match profile_refusal(tls_configured, allow_insecure, tls_backend) {
            Some(error) => result == Err::<(), ConfigError>(error),
            None => result is Ok,
        },
{
    if !tls_configured && !allow_insecure {
        Err(ConfigError::InsecureProfileRequiresOptIn)
    } else if tls_configured && allow_insecure {
        Err(ConfigError::TlsWithInsecureOptIn)
    } else if tls_configured && !tls_backend {
        Err(ConfigError::TlsFeatureDisabled)
    } else {
        Ok(())
    }
}

/// Why one of the first `count` listen addresses is refused, if one is: it has no port, or
/// stands there already.
pub open spec fn addresses_refusal(addresses: Seq<SocketAddress>, count: int) -> Option<ConfigError>
    decreases count,
{
    if count <= 0 {
        None
    } else {
        let last = addresses[count - 1];
        match addresses_refusal(addresses, count - 1) {
            Some(error) => Some(error),
            None => if last.port == 0 {
                Some(ConfigError::ZeroPort)
            } else if addresses.take(count - 1).contains(last) {
                Some(ConfigError::DuplicateListenAddress(last))
            } else {
                None
            },
        }
    }
}

/// Why listen addresses are refused, if they are.
pub open spec fn listen_refusal(addresses: Seq<SocketAddress>) -> Option<ConfigError> {
    if addresses.len() == 0 {
        Some(ConfigError::EmptyListenAllowlist)
    } else {
        addresses_refusal(addresses, addresses.len() as int)
    }
}

proof fn lemma_addresses_fail(addresses: Seq<SocketAddress>, part: int, count: int)
    requires
        part <= count,
        addresses_refusal(addresses, part) is Some,
    ensures
        addresses_refusal(addresses, count) == addresses_refusal(addresses, part),
    decreases count - part,
{
    if part < count {
        lemma_addresses_fail(addresses, part, count - 1);
    }
}

proof fn lemma_addresses_accepted(addresses: Seq<SocketAddress>, count: int)
    requires
        0 <= count <= addresses.len(),
        addresses_refusal(addresses, count) is None,
    ensures
        forall|index: int| 0 <= index < count ==> (#[trigger] addresses[index]).port != 0,
        forall|left: int, right: int|
            0 <= left < right < count ==> #[trigger] addresses[left] != #[trigger] addresses[right],
    decreases count,
{
    if count > 0 {
        lemma_addresses_accepted(addresses, count - 1);
        let front = addresses.take(count - 1);
        assert forall|left: int| 0 <= left < count - 1 implies #[trigger] addresses[left] != addresses[count - 1] by {
            assert(front[left] == addresses[left]);
        }
    }
}

/// Accepted listen addresses are not none, each has a port, and none occurs twice.
pub proof fn law_accepted_listen_addresses_are_distinct(addresses: Seq<SocketAddress>)
    requires
        listen_refusal(addresses) is None,
    ensures
        addresses.len() > 0,
        forall|index: int| 0 <= index < addresses.len() ==> (#[trigger] addresses[index]).port != 0,
        addresses.no_duplicates(),
{
    lemma_addresses_accepted(addresses, addresses.len() as int);
}

fn validate_listen_addrs(listen_addrs: &[SocketAddress]) -> (result: Result<(), ConfigError>)
    ensures
        match listen_refusal(listen_addrs@) {
            Some(error) => result == Err::<(), ConfigError>(error),
            None => result is Ok,
        },
{
    if listen_addrs.len() == 0 {
        return Err(ConfigError::EmptyListenAllowlist);
    }
    let mut at: usize = 0;
    while at < listen_addrs.len()
        invariant
            at <= listen_addrs@.len(),
            listen_addrs@.len() > 0,
            addresses_refusal(listen_addrs@, at as int) is None,
        decreases listen_addrs@.len() - at,
    {
        let address: SocketAddress = listen_addrs[at];
        let duplicate: bool = holds(listen_addrs, at, address);
        if address.port == 0 || duplicate {
            proof {
                lemma_addresses_fail(listen_addrs@, at + 1, listen_addrs@.len() as int);
            }
        }
        if address.port == 0 {
            return Err(ConfigError::ZeroPort);
        }
        if duplicate {
            return Err(ConfigError::DuplicateListenAddress(address));
        }
        at = at + 1;
    }
    Ok(())
}

/// Whether an address stands among the first `count`.
fn holds(addresses: &[SocketAddress], count: usize, wanted: SocketAddress) -> (held: bool)
    requires
        count <= addresses@.len(),
    ensures
        held == addresses@.take(count as int).contains(wanted),
{
    let mut at: usize = 0;
    while at < count
        invariant
            at <= count <= addresses@.len(),
            forall|index: int| 0 <= index < at ==> #[trigger] addresses@[index] != wanted,
        decreases count - at,
    {
        if addresses[at] == wanted {
            assert(addresses@.take(count as int)[at as int] == wanted);
            return true;
        }
        at = at + 1;
    }
    false
}

/// Validated client security, path, and carrier settings.
#[derive(Clone, Debug, PartialEq, Eq)]
pub struct ClientConfig {
    /// Security settings of the QUIC backend; not part of the no-security QUICP core.
    pub(crate) tls: Option<ClientTls>,
    /// Explicitly permits the unauthenticated no-security profile when TLS is absent.
    pub(crate) allow_insecure: bool,
    pub(crate) multipath: Multipath,
    pub(crate) carrier: CarrierConfig,
    pub(crate) transport: QuicpTransportConfig,
}

/// The content of a client configuration.
pub ghost struct ClientModel {
    /// The TLS settings.
    pub tls: Option<ClientTlsModel>,
    /// Whether the unauthenticated profile is selected.
    pub allow_insecure: bool,
    /// The paths.
    pub multipath: MultipathModel,
    /// The carrier policy.
    pub carrier: CarrierPolicyModel,
    /// The transport policy.
    pub transport: QuicpTransportConfig,
}

/// The content of client TLS settings, where there are any.
pub open spec fn client_tls_model(tls: Option<ClientTls>) -> Option<ClientTlsModel> {
    match tls {
        Some(settings) => Some(settings@),
        None => None,
    }
}

/// The content of server TLS settings, where there are any.
pub open spec fn server_tls_model(tls: Option<ServerTls>) -> Option<ServerTlsModel> {
    match tls {
        Some(settings) => Some(settings@),
        None => None,
    }
}

impl View for ClientConfig {
    type V = ClientModel;

    closed spec fn view(&self) -> ClientModel {
        ClientModel {
            tls: client_tls_model(self.tls),
            allow_insecure: self.allow_insecure,
            multipath: self.multipath@,
            carrier: self.carrier@,
            transport: self.transport,
        }
    }
}

/// Why a client configuration is refused, if it is: the first rule that it breaks.
pub open spec fn client_refusal(config: ClientModel) -> Option<ConfigError> {
    transport::first_refusal(
        profile_refusal(config.tls is Some, config.allow_insecure, TLS_BACKEND),
        transport::first_refusal(
            match config.tls {
                Some(settings) => tls::client_tls_refusal(settings),
                None => None,
            },
            transport::first_refusal(
                multipath::multipath_refusal(config.multipath),
                transport::first_refusal(
                    carrier::carrier_policy_refusal(config.carrier),
                    transport::transport_refusal(config.transport),
                ),
            ),
        ),
    )
}

impl ClientConfig {
    /// The configuration passed every check.
    pub closed spec fn wf(&self) -> bool {
        self.transport.wf() && client_refusal(self@) is None
    }

    /// What well-formed means for the content.
    pub proof fn lemma_wf(&self)
        requires
            self.wf(),
        ensures
            client_refusal(self@) is None,
            self@.transport.wf(),
    {
    }

    /// Creates an explicitly unauthenticated client configuration.
    pub fn insecure(multipath: Multipath, carrier: CarrierConfig) -> (result: Result<Self, ConfigError>)
        ensures
            client_created(
                (ClientModel {
                    tls: None,
                    allow_insecure: true,
                    multipath: multipath@,
                    carrier: carrier@,
                    transport: transport::default_transport(),
                }),
                result,
            ),
    {
        Self::from_parts(None, true, multipath, carrier, QuicpTransportConfig::default())
    }

    /// Creates a client configuration using the supplied TLS identity and trust material.
    pub fn with_tls(tls: ClientTls, multipath: Multipath, carrier: CarrierConfig) -> (result: Result<Self, ConfigError>)
        ensures
            client_created(
                (ClientModel {
                    tls: Some(tls@),
                    allow_insecure: false,
                    multipath: multipath@,
                    carrier: carrier@,
                    transport: transport::default_transport(),
                }),
                result,
            ),
    {
        Self::from_parts(Some(tls), false, multipath, carrier, QuicpTransportConfig::default())
    }

    fn from_parts(
        tls: Option<ClientTls>,
        allow_insecure: bool,
        multipath: Multipath,
        carrier: CarrierConfig,
        transport: QuicpTransportConfig,
    ) -> (result: Result<Self, ConfigError>)
        requires
            transport.wf(),
        ensures
            client_created(
                (ClientModel {
                    tls: client_tls_model(tls),
                    allow_insecure,
                    multipath: multipath@,
                    carrier: carrier@,
                    transport,
                }),
                result,
            ),
    {
        let config = ClientConfig { tls, allow_insecure, multipath, carrier, transport };
        match config.validate() {
            Ok(()) => Ok(config),
            Err(error) => Err(error),
        }
    }

    /// Checks the complete snapshot.
    pub(crate) fn validate(&self) -> (result: Result<(), ConfigError>)
        requires
            self@.transport.wf(),
        ensures
            match client_refusal(self@) {
                Some(error) => result == Err::<(), ConfigError>(error),
                None => result is Ok,
            },
    {
        if let Err(error) = validate_security_profile(self.tls.is_some(), self.allow_insecure, TLS_BACKEND) {
            return Err(error);
        }
        if let Some(settings) = &self.tls {
            if let Err(error) = settings.validate() {
                return Err(error);
            }
        }
        if let Err(error) = multipath::validate_multipath(&self.multipath) {
            return Err(error);
        }
        if let Err(error) = self.carrier.validate() {
            return Err(error);
        }
        self.transport.validate()
    }

    /// Returns the TLS settings, or `None` for the explicitly insecure profile.
    pub fn tls(&self) -> (tls: Option<&ClientTls>)
        ensures
            match tls {
                Some(settings) => self@.tls == Some(settings@),
                None => self@.tls is None,
            },
    {
        match &self.tls {
            Some(settings) => Some(settings),
            None => None,
        }
    }

    /// Returns whether the unauthenticated profile was explicitly selected.
    pub fn allow_insecure(&self) -> (allowed: bool)
        ensures
            allowed == self@.allow_insecure,
    {
        self.allow_insecure
    }

    /// Returns the validated path configuration.
    pub fn multipath(&self) -> (multipath: &Multipath)
        ensures
            multipath@ == self@.multipath,
    {
        &self.multipath
    }

    /// Returns the raw-carrier policy.
    pub fn carrier(&self) -> (carrier: &CarrierConfig)
        ensures
            carrier@ == self@.carrier,
    {
        &self.carrier
    }

    /// Returns the validated QUICP transport policy.
    pub fn transport(&self) -> (transport: &QuicpTransportConfig)
        ensures
            *transport == self@.transport,
    {
        &self.transport
    }

    /// Replaces the transport policy and validates the complete client snapshot.
    pub fn with_transport(self, transport: QuicpTransportConfig) -> (result: Result<Self, ConfigError>)
        requires
            transport.wf(),
        ensures
            client_created((ClientModel { transport, ..self@ }), result),
    {
        let config = ClientConfig { transport, ..self };
        match config.validate() {
            Ok(()) => Ok(config),
            Err(error) => Err(error),
        }
    }
}

/// What comes of creating a client configuration: it is refused, or it is what was given.
pub open spec fn client_created(given: ClientModel, result: Result<ClientConfig, ConfigError>) -> bool {
    match client_refusal(given) {
        Some(error) => result == Err::<ClientConfig, ConfigError>(error),
        None => result matches Ok(config) && config.wf() && config@ == given,
    }
}

/// Validated server security, listen-address, and carrier settings.
#[derive(Clone, Debug, PartialEq, Eq)]
pub struct ServerConfig {
    pub(crate) listen_addrs: Vec<SocketAddress>,
    /// Security settings of the QUIC backend; not part of the no-security QUICP core.
    pub(crate) tls: Option<ServerTls>,
    /// Explicitly permits the unauthenticated no-security profile when TLS is absent.
    pub(crate) allow_insecure: bool,
    pub(crate) carrier: CarrierConfig,
    pub(crate) transport: QuicpTransportConfig,
}

/// The content of a server configuration.
pub ghost struct ServerModel {
    /// The addresses to listen on.
    pub listen_addrs: Seq<SocketAddress>,
    /// The TLS settings.
    pub tls: Option<ServerTlsModel>,
    /// Whether the unauthenticated profile is selected.
    pub allow_insecure: bool,
    /// The carrier policy.
    pub carrier: CarrierPolicyModel,
    /// The transport policy.
    pub transport: QuicpTransportConfig,
}

impl View for ServerConfig {
    type V = ServerModel;

    closed spec fn view(&self) -> ServerModel {
        ServerModel {
            listen_addrs: self.listen_addrs@,
            tls: server_tls_model(self.tls),
            allow_insecure: self.allow_insecure,
            carrier: self.carrier@,
            transport: self.transport,
        }
    }
}

/// Why a server configuration is refused, if it is: the first rule that it breaks.
pub open spec fn server_refusal(config: ServerModel) -> Option<ConfigError> {
    transport::first_refusal(
        listen_refusal(config.listen_addrs),
        transport::first_refusal(
            profile_refusal(config.tls is Some, config.allow_insecure, TLS_BACKEND),
            transport::first_refusal(
                match config.tls {
                    Some(settings) => tls::server_tls_refusal(settings),
                    None => None,
                },
                transport::first_refusal(
                    carrier::carrier_policy_refusal(config.carrier),
                    transport::transport_refusal(config.transport),
                ),
            ),
        ),
    )
}

/// What comes of creating a server configuration: it is refused, or it is what was given.
pub open spec fn server_created(given: ServerModel, result: Result<ServerConfig, ConfigError>) -> bool {
    match server_refusal(given) {
        Some(error) => result == Err::<ServerConfig, ConfigError>(error),
        None => result matches Ok(config) && config.wf() && config@ == given,
    }
}

impl ServerConfig {
    /// The configuration passed every check.
    pub closed spec fn wf(&self) -> bool {
        self.transport.wf() && server_refusal(self@) is None
    }

    /// What well-formed means for the content.
    pub proof fn lemma_wf(&self)
        requires
            self.wf(),
        ensures
            server_refusal(self@) is None,
            self@.transport.wf(),
    {
    }

    /// Creates an explicitly unauthenticated server configuration.
    pub fn insecure(listen_addrs: Vec<SocketAddress>, carrier: CarrierConfig) -> (result: Result<Self, ConfigError>)
        ensures
            server_created(
                (ServerModel {
                    listen_addrs: listen_addrs@,
                    tls: None,
                    allow_insecure: true,
                    carrier: carrier@,
                    transport: transport::default_transport(),
                }),
                result,
            ),
    {
        Self::from_parts(listen_addrs, None, true, carrier, QuicpTransportConfig::default())
    }

    /// Creates a server configuration using the supplied TLS identity and trust material.
    pub fn with_tls(listen_addrs: Vec<SocketAddress>, tls: ServerTls, carrier: CarrierConfig) -> (result: Result<
        Self,
        ConfigError,
    >)
        ensures
            server_created(
                (ServerModel {
                    listen_addrs: listen_addrs@,
                    tls: Some(tls@),
                    allow_insecure: false,
                    carrier: carrier@,
                    transport: transport::default_transport(),
                }),
                result,
            ),
    {
        Self::from_parts(listen_addrs, Some(tls), false, carrier, QuicpTransportConfig::default())
    }

    fn from_parts(
        listen_addrs: Vec<SocketAddress>,
        tls: Option<ServerTls>,
        allow_insecure: bool,
        carrier: CarrierConfig,
        transport: QuicpTransportConfig,
    ) -> (result: Result<Self, ConfigError>)
        requires
            transport.wf(),
        ensures
            server_created(
                (ServerModel {
                    listen_addrs: listen_addrs@,
                    tls: server_tls_model(tls),
                    allow_insecure,
                    carrier: carrier@,
                    transport,
                }),
                result,
            ),
    {
        let config = ServerConfig { listen_addrs, tls, allow_insecure, carrier, transport };
        match config.validate() {
            Ok(()) => Ok(config),
            Err(error) => Err(error),
        }
    }

    /// Checks the complete snapshot.
    pub(crate) fn validate(&self) -> (result: Result<(), ConfigError>)
        requires
            self@.transport.wf(),
        ensures
            match server_refusal(self@) {
                Some(error) => result == Err::<(), ConfigError>(error),
                None => result is Ok,
            },
    {
        if let Err(error) = validate_listen_addrs(self.listen_addrs.as_slice()) {
            return Err(error);
        }
        if let Err(error) = validate_security_profile(self.tls.is_some(), self.allow_insecure, TLS_BACKEND) {
            return Err(error);
        }
        if let Some(settings) = &self.tls {
            if let Err(error) = settings.validate() {
                return Err(error);
            }
        }
        if let Err(error) = self.carrier.validate() {
            return Err(error);
        }
        self.transport.validate()
    }

    /// Returns the validated server listen-address allowlist.
    pub fn listen_addrs(&self) -> (addresses: &[SocketAddress])
        ensures
            addresses@ == self@.listen_addrs,
    {
        self.listen_addrs.as_slice()
    }

    /// Returns the TLS settings, or `None` for the explicitly insecure profile.
    pub fn tls(&self) -> (tls: Option<&ServerTls>)
        ensures
            match tls {
                Some(settings) => self@.tls == Some(settings@),
                None => self@.tls is None,
            },
    {
        match &self.tls {
            Some(settings) => Some(settings),
            None => None,
        }
    }

    /// Returns whether the unauthenticated profile was explicitly selected.
    pub fn allow_insecure(&self) -> (allowed: bool)
        ensures
            allowed == self@.allow_insecure,
    {
        self.allow_insecure
    }

    /// Returns the raw-carrier policy.
    pub fn carrier(&self) -> (carrier: &CarrierConfig)
        ensures
            carrier@ == self@.carrier,
    {
        &self.carrier
    }

    /// Returns the validated QUICP transport policy.
    pub fn transport(&self) -> (transport: &QuicpTransportConfig)
        ensures
            *transport == self@.transport,
    {
        &self.transport
    }

    /// Replaces the transport policy and validates the complete server snapshot.
    pub fn with_transport(self, transport: QuicpTransportConfig) -> (result: Result<Self, ConfigError>)
        requires
            transport.wf(),
        ensures
            server_created((ServerModel { transport, ..self@ }), result),
    {
        let config = ServerConfig { transport, ..self };
        match config.validate() {
            Ok(()) => Ok(config),
            Err(error) => Err(error),
        }
    }
}

/// A validated client or server configuration snapshot.
#[derive(Clone, Debug, PartialEq, Eq)]
pub enum Config {
    /// Client endpoint configuration.
    Client(ClientConfig),
    /// Server endpoint configuration.
    Server(ServerConfig),
}

impl Config {
    /// Returns the client configuration when this snapshot has the client role.
    pub fn client(&self) -> (config: Option<&ClientConfig>)
        ensures
            match self {
                Config::Client(held) => config == Some(held),
                Config::Server(_) => config is None,
            },
    {
        match self {
            Config::Client(config) => Some(config),
            Config::Server(_) => None,
        }
    }

    /// Returns the server configuration when this snapshot has the server role.
    pub fn server(&self) -> (config: Option<&ServerConfig>)
        ensures
            match self {
                Config::Server(held) => config == Some(held),
                Config::Client(_) => config is None,
            },
    {
        match self {
            Config::Server(config) => Some(config),
            Config::Client(_) => None,
        }
    }
}

/// A configuration as it was read.
#[allow(inconsistent_fields)]
#[derive(Debug)]
pub enum RawConfig {
    /// Client settings.
    Client {
        /// TLS settings.
        tls: Option<ClientTls>,
        /// Whether the unauthenticated profile is selected.
        allow_insecure: bool,
        /// Paths.
        multipath: Multipath,
        /// Carrier policy.
        carrier: CarrierConfig,
        /// Transport policy.
        transport: QuicpTransportConfig,
    },
    /// Server settings.
    Server {
        /// Addresses to listen on.
        listen_addrs: Vec<SocketAddress>,
        /// TLS settings.
        tls: Option<ServerTls>,
        /// Whether the unauthenticated profile is selected.
        allow_insecure: bool,
        /// Carrier policy.
        carrier: CarrierConfig,
        /// Transport policy.
        transport: QuicpTransportConfig,
    },
}

impl RawConfig {
    /// Every length of time has its nanoseconds below one second.
    pub open spec fn wf(&self) -> bool {
        match self {
            RawConfig::Client { transport, .. } => transport.wf(),
            RawConfig::Server { transport, .. } => transport.wf(),
        }
    }

    /// Checks the settings and makes a configuration of them.
    pub fn validate(self) -> (result: Result<Config, ConfigError>)
        requires
            self.wf(),
        ensures
            match self {
                RawConfig::Client { tls, allow_insecure, multipath, carrier, transport } => {
                    let given = ClientModel {
                        tls: client_tls_model(tls),
                        allow_insecure,
                        multipath: multipath@,
                        carrier: carrier@,
                        transport,
                    };
                    match result {
                        Ok(Config::Client(config)) => client_created(given, Ok(config)),
                        Ok(Config::Server(_)) => false,
                        Err(error) => client_created(given, Err(error)),
                    }
                },
                RawConfig::Server { listen_addrs, tls, allow_insecure, carrier, transport } => {
                    let given = ServerModel {
                        listen_addrs: listen_addrs@,
                        tls: server_tls_model(tls),
                        allow_insecure,
                        carrier: carrier@,
                        transport,
                    };
                    match result {
                        Ok(Config::Server(config)) => server_created(given, Ok(config)),
                        Ok(Config::Client(_)) => false,
                        Err(error) => server_created(given, Err(error)),
                    }
                },
            },
    {
        match self {
            RawConfig::Client { tls, allow_insecure, multipath, carrier, transport } => {
                match ClientConfig::from_parts(tls, allow_insecure, multipath, carrier, transport) {
                    Ok(config) => Ok(Config::Client(config)),
                    Err(error) => Err(error),
                }
            },
            RawConfig::Server { listen_addrs, tls, allow_insecure, carrier, transport } => {
                match ServerConfig::from_parts(listen_addrs, tls, allow_insecure, carrier, transport) {
                    Ok(config) => Ok(Config::Server(config)),
                    Err(error) => Err(error),
                }
            },
        }
    }
}

/// Nobody goes without security by accident: an accepted client or server either has TLS,
/// or says that it allows the unauthenticated profile, and never both.
pub proof fn law_insecure_only_by_choice(client: ClientModel, server: ServerModel)
    requires
        client_refusal(client) is None,
        server_refusal(server) is None,
    ensures
        client.allow_insecure <==> client.tls is None,
        server.allow_insecure <==> server.tls is None,
{
}

/// What a constructor accepts, checking the complete snapshot accepts again.
pub proof fn law_accepted_snapshots_stay_valid(client: &ClientConfig, server: &ServerConfig)
    requires
        client.wf(),
        server.wf(),
    ensures
        client_refusal(client@) is None,
        server_refusal(server@) is None,
        transport::sound_transport(client@.transport),
        transport::sound_transport(server@.transport),
{
    client.lemma_wf();
    server.lemma_wf();
    transport::law_sound_transport_is_accepted(client@.transport);
    transport::law_sound_transport_is_accepted(server@.transport);
}

}
