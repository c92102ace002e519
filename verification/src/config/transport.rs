//! Transport controls shared by client and server endpoints.
use crate::config::duration::Duration;
use crate::config::error::ConfigError;
use crate::config::mtu;
use crate::config::mtu::MtuConfig;
use vstd::prelude::*;

verus! {

/// Maximum per-flow buffer allocated by the transport.
pub const MAX_FLOW_BUFFER_BYTES: u32 = 16 * 1024 * 1024;

/// Maximum endpoint-wide recovery memory budget.
pub const MAX_RECOVERY_MEMORY_BUDGET_BYTES: u32 = 1024 * 1024 * 1024;

/// Maximum bytes retained for one pending handshake.
pub const MAX_PENDING_HANDSHAKE_BUFFER_BYTES: u32 = 1024 * 1024;

/// Maximum number of source symbols covered by one repair symbol.
pub const MAX_REPAIR_SPAN: u16 = 256;

/// Maximum bounded decoder window.
pub const MAX_DECODER_WINDOW: u16 = 4096;

/// The largest number that a QUIC variable-length integer holds.
pub const MAX_CONFIG_WINDOW: u64 = 0x3fff_ffff_ffff_ffff;

/// Built-in congestion-control algorithms for one QUICP connection/path.
///
/// This setting affects transport pacing and congestion windows; it does not change the
/// QUICP wire format or the `FakeTCP` carrier.
#[derive(Clone, Copy, Debug, PartialEq, Eq, Structural)]
pub enum CongestionControl {
    /// CUBIC, the default profile.
    Cubic,
    /// RFC 6582-style New Reno.
    NewReno,
    /// `BBRv3` controller supplied by the QUIC backend.
    Bbr3,
}

impl Default for CongestionControl {
    fn default() -> (control: Self)
        ensures
            control == CongestionControl::Cubic,
    {
        CongestionControl::Cubic
    }
}

/// QUICP/2 payload recovery substrate.
#[derive(Clone, Copy, Debug, PartialEq, Eq, Structural)]
pub enum RecoveryMode {
    /// Use source DATAGRAMs, adaptive repair, selective replay, and reliable fallback.
    Adaptive,
    /// Carry payload through framed reliable control streams only.
    ReliableOnly,
}

impl Default for RecoveryMode {
    fn default() -> (mode: Self)
        ensures
            mode == RecoveryMode::Adaptive,
    {
        RecoveryMode::Adaptive
    }
}

/// Bounded QUICP/2 recovery limits shared by both endpoints.
#[derive(Clone, Copy, Debug, PartialEq, Eq, Structural)]
pub struct RecoveryConfig {
    /// Selected recovery substrate.
    pub mode: RecoveryMode,
    /// Reject peers that do not negotiate DATAGRAM and repair support.
    pub require_adaptive: bool,
    /// Largest number of source symbols covered by one repair symbol.
    pub max_repair_span: u16,
    /// Maximum source symbols retained by the decoder.
    pub decoder_window: u16,
    /// Maximum selective ranges in one logical ACK.
    pub max_ack_ranges: u8,
    /// Maximum unacknowledged application bytes retained per flow.
    pub replay_buffer_bytes: u32,
    /// Maximum out-of-order application bytes retained per flow.
    pub reassembly_buffer_bytes: u32,
    /// Maximum source symbols accepted before their OPEN stream is admitted.
    pub pre_open_symbols: u16,
    /// Maximum recovery work quanta per DATAGRAM, scaled by the symbol-byte ceiling.
    pub work_budget: u16,
}

/// The default recovery limits.
pub open spec fn default_recovery() -> RecoveryConfig {
    RecoveryConfig {
        mode: RecoveryMode::Adaptive,
        require_adaptive: false,
        max_repair_span: 64,
        decoder_window: 512,
        max_ack_ranges: 16,
        replay_buffer_bytes: 262_144,
        reassembly_buffer_bytes: 262_144,
        pre_open_symbols: 32,
        work_budget: 128,
    }
}

impl Default for RecoveryConfig {
    fn default() -> (config: Self)
        ensures
            config == default_recovery(),
    {
        RecoveryConfig {
            mode: RecoveryMode::Adaptive,
            require_adaptive: false,
            max_repair_span: 64,
            decoder_window: 512,
            max_ack_ranges: 16,
            replay_buffer_bytes: 256 * 1024,
            reassembly_buffer_bytes: 256 * 1024,
            pre_open_symbols: 32,
            work_budget: 128,
        }
    }
}

/// Why a limit is refused, if it is.
pub open spec fn limit_refusal(name: &'static str, value: u32, minimum: u32, maximum: u32) -> Option<ConfigError> {
    if minimum <= value <= maximum {
        None
    } else {
        Some(ConfigError::InvalidRecoveryLimit { name, value, minimum, maximum })
    }
}

/// The first of two refusals.
pub open spec fn first_refusal(first: Option<ConfigError>, second: Option<ConfigError>) -> Option<ConfigError> {
    match first {
        Some(error) => Some(error),
        None => second,
    }
}

/// Why recovery limits are refused for flows with the given buffer, if they are: the first
/// rule that they break.
pub open spec fn recovery_refusal(config: RecoveryConfig, flow_buffer_bytes: u32) -> Option<ConfigError> {
    if config.require_adaptive && config.mode != RecoveryMode::Adaptive {
        Some(ConfigError::InvalidRecoveryPolicy)
    } else if !(1 <= config.max_repair_span <= MAX_REPAIR_SPAN) {
        limit_refusal("max_repair_span", config.max_repair_span as u32, 1, MAX_REPAIR_SPAN as u32)
    } else if !(512 <= config.decoder_window <= MAX_DECODER_WINDOW) {
        limit_refusal("decoder_window", config.decoder_window as u32, 512, MAX_DECODER_WINDOW as u32)
    } else if config.decoder_window < config.max_repair_span {
        Some(ConfigError::InvalidRecoveryPolicy)
    } else if !(1 <= config.max_ack_ranges <= 32) {
        limit_refusal("max_ack_ranges", config.max_ack_ranges as u32, 1, 32)
    } else {
        first_refusal(
            limit_refusal(
                "replay_buffer_bytes",
                config.replay_buffer_bytes,
                flow_buffer_bytes,
                MAX_FLOW_BUFFER_BYTES,
            ),
            first_refusal(
                limit_refusal(
                    "reassembly_buffer_bytes",
                    config.reassembly_buffer_bytes,
                    flow_buffer_bytes,
                    MAX_FLOW_BUFFER_BYTES,
                ),
                first_refusal(
                    limit_refusal("pre_open_symbols", config.pre_open_symbols as u32, 0, 256),
                    limit_refusal("work_budget", config.work_budget as u32, 1, 4096),
                ),
            ),
        )
    }
}

/// What is asked of recovery limits for flows with the given buffer.
pub open spec fn sound_recovery(config: RecoveryConfig, flow_buffer_bytes: u32) -> bool {
    &&& config.require_adaptive ==> config.mode == RecoveryMode::Adaptive
    &&& 1 <= config.max_repair_span <= MAX_REPAIR_SPAN
    &&& 512 <= config.decoder_window <= MAX_DECODER_WINDOW
    &&& 1 <= config.max_ack_ranges <= 32
    &&& flow_buffer_bytes <= config.replay_buffer_bytes <= MAX_FLOW_BUFFER_BYTES
    &&& flow_buffer_bytes <= config.reassembly_buffer_bytes <= MAX_FLOW_BUFFER_BYTES
    &&& config.pre_open_symbols <= 256
    &&& 1 <= config.work_budget <= 4096
}

/// Recovery limits are accepted exactly where they are sound. The window then always holds
/// the symbols that one repair symbol covers.
pub proof fn law_sound_recovery_is_accepted(config: RecoveryConfig, flow_buffer_bytes: u32)
    ensures
        recovery_refusal(config, flow_buffer_bytes) is None <==> sound_recovery(config, flow_buffer_bytes),
        recovery_refusal(config, flow_buffer_bytes) is None ==> config.max_repair_span <= config.decoder_window,
{
}

fn validate_recovery_limit(name: &'static str, value: u32, minimum: u32, maximum: u32) -> (result: Result<
    (),
    ConfigError,
>)
    ensures
        match limit_refusal(name, value, minimum, maximum) {
            Some(error) => result == Err::<(), ConfigError>(error),
            None => result is Ok,
        },
{
    if value < minimum || value > maximum {
        return Err(ConfigError::InvalidRecoveryLimit { name, value, minimum, maximum });
    }
    Ok(())
}

impl RecoveryConfig {
    /// Checks the limits for flows with the given buffer.
    pub fn validate(self, flow_buffer_bytes: u32) -> (result: Result<(), ConfigError>)
        ensures
            match recovery_refusal(self, flow_buffer_bytes) {
                Some(error) => result == Err::<(), ConfigError>(error),
                None => result is Ok,
            },
    {
        if self.require_adaptive && self.mode != RecoveryMode::Adaptive {
            return Err(ConfigError::InvalidRecoveryPolicy);
        }
        if let Err(error) = validate_recovery_limit(
            "max_repair_span",
            self.max_repair_span as u32,
            1,
            MAX_REPAIR_SPAN as u32,
        ) {
            return Err(error);
        }
        if let Err(error) = validate_recovery_limit(
            "decoder_window",
            self.decoder_window as u32,
            512,
            MAX_DECODER_WINDOW as u32,
        ) {
            return Err(error);
        }
        if self.decoder_window < self.max_repair_span {
            return Err(ConfigError::InvalidRecoveryPolicy);
        }
        if let Err(error) = validate_recovery_limit("max_ack_ranges", self.max_ack_ranges as u32, 1, 32) {
            return Err(error);
        }
        if let Err(error) = validate_recovery_limit(
            "replay_buffer_bytes",
            self.replay_buffer_bytes,
            flow_buffer_bytes,
            MAX_FLOW_BUFFER_BYTES,
        ) {
            return Err(error);
        }
        if let Err(error) = validate_recovery_limit(
            "reassembly_buffer_bytes",
            self.reassembly_buffer_bytes,
            flow_buffer_bytes,
            MAX_FLOW_BUFFER_BYTES,
        ) {
            return Err(error);
        }
        if let Err(error) = validate_recovery_limit("pre_open_symbols", self.pre_open_symbols as u32, 0, 256) {
            return Err(error);
        }
        validate_recovery_limit("work_budget", self.work_budget as u32, 1, 4096)
    }
}

/// Runtime-neutral QUICP transport controls shared by client and server endpoints.
#[derive(Clone, Copy, Debug, PartialEq, Eq, Structural)]
pub struct QuicpTransportConfig {
    /// MTU, MSS, and PMTU policy.
    pub mtu: MtuConfig,
    /// Maximum bytes sent without peer flow-control credit.
    pub connection_send_window: u64,
    /// Maximum bytes accepted across all streams.
    pub connection_receive_window: u64,
    /// Per-stream receive window.
    pub stream_receive_window: u32,
    /// Maximum peer-initiated bidirectional streams.
    pub max_concurrent_bidi_streams: u32,
    /// Maximum peer-initiated unidirectional streams.
    pub max_concurrent_uni_streams: u32,
    /// Connection idle timeout.
    pub idle_timeout: Duration,
    /// Connection keepalive interval.
    pub keep_alive_interval: Duration,
    /// Per-path idle timeout.
    pub path_idle_timeout: Duration,
    /// Number of ack-eliciting packets before an ACK is requested.
    pub ack_eliciting_threshold: u32,
    /// Maximum ACK delay.
    pub max_ack_delay: Duration,
    /// Default TCP_NODELAY-like flow behavior.
    pub default_nodelay: bool,
    /// Bounded per-flow write buffer.
    pub flow_write_buffer_bytes: u32,
    /// Maximum recovery bytes retained across all connections of one endpoint.
    pub recovery_memory_budget_bytes: u32,
    /// Maximum simultaneous server handshakes.
    pub max_pending_handshakes: u16,
    /// Per-handshake buffered bytes.
    pub pending_handshake_buffer_bytes: u32,
    /// Maximum active server connections.
    pub max_active_connections: u16,
    /// Maximum active connections from one peer.
    pub max_active_connections_per_peer: u16,
    /// Built-in congestion controller used by the QUICP transport.
    pub congestion_control: CongestionControl,
    /// QUICP/2 logical recovery policy.
    pub recovery: RecoveryConfig,
}

/// The default transport controls.
pub open spec fn default_transport() -> QuicpTransportConfig {
    QuicpTransportConfig {
        mtu: mtu::default_mtu(),
        connection_send_window: 8_388_608,
        connection_receive_window: 8_388_608,
        stream_receive_window: 131_072,
        max_concurrent_bidi_streams: 128,
        max_concurrent_uni_streams: 0,
        idle_timeout: Duration { seconds: 60, nanoseconds: 0 },
        keep_alive_interval: Duration { seconds: 5, nanoseconds: 0 },
        path_idle_timeout: Duration { seconds: 15, nanoseconds: 0 },
        ack_eliciting_threshold: 10,
        max_ack_delay: Duration { seconds: 0, nanoseconds: 1_000_000 },
        default_nodelay: true,
        flow_write_buffer_bytes: 32_768,
        recovery_memory_budget_bytes: 67_108_864,
        max_pending_handshakes: 128,
        pending_handshake_buffer_bytes: 32_768,
        max_active_connections: 128,
        max_active_connections_per_peer: 16,
        congestion_control: CongestionControl::Cubic,
        recovery: default_recovery(),
    }
}

impl Default for QuicpTransportConfig {
    fn default() -> (config: Self)
        ensures
            config == default_transport(),
    {
        QuicpTransportConfig {
            mtu: MtuConfig::default(),
            connection_send_window: 8 * 1024 * 1024,
            connection_receive_window: 8 * 1024 * 1024,
            stream_receive_window: 128 * 1024,
            max_concurrent_bidi_streams: 128,
            max_concurrent_uni_streams: 0,
            idle_timeout: Duration::from_seconds(60),
            keep_alive_interval: Duration::from_seconds(5),
            path_idle_timeout: Duration::from_seconds(15),
            ack_eliciting_threshold: 10,
            max_ack_delay: Duration { seconds: 0, nanoseconds: 1_000_000 },
            default_nodelay: true,
            flow_write_buffer_bytes: 32 * 1024,
            recovery_memory_budget_bytes: 64 * 1024 * 1024,
            max_pending_handshakes: 128,
            pending_handshake_buffer_bytes: 32 * 1024,
            max_active_connections: 128,
            max_active_connections_per_peer: 16,
            congestion_control: CongestionControl::Cubic,
            recovery: RecoveryConfig::default(),
        }
    }
}

impl QuicpTransportConfig {
    /// Every length of time has its nanoseconds below one second.
    pub open spec fn wf(self) -> bool {
        &&& self.idle_timeout.wf()
        &&& self.keep_alive_interval.wf()
        &&& self.path_idle_timeout.wf()
    }
}

/// Why the windows and streams of transport controls are refused, if they are.
pub open spec fn window_refusal(config: QuicpTransportConfig) -> Option<ConfigError> {
    if config.connection_send_window == 0 || config.connection_send_window > MAX_CONFIG_WINDOW {
        Some(ConfigError::InvalidTransportWindow(config.connection_send_window))
    } else if config.connection_receive_window == 0 || config.connection_receive_window > MAX_CONFIG_WINDOW {
        Some(ConfigError::InvalidTransportWindow(config.connection_receive_window))
    } else if config.stream_receive_window == 0 {
        Some(ConfigError::ZeroTransportValue("stream_receive_window"))
    } else if config.max_concurrent_bidi_streams == 0 {
        Some(ConfigError::ZeroTransportValue("max_concurrent_bidi_streams"))
    } else {
        None
    }
}

/// Why the timers of transport controls are refused, if they are.
pub open spec fn timer_refusal(config: QuicpTransportConfig) -> Option<ConfigError> {
    let idle = config.idle_timeout;
    if idle.length() == 0 || config.keep_alive_interval.length() == 0 || config.path_idle_timeout.length() == 0
        || config.max_ack_delay.length() == 0 {
        Some(ConfigError::ZeroTransportDuration)
    } else if config.keep_alive_interval.length() >= idle.length() {
        Some(ConfigError::KeepAliveNotShorter { keep_alive: config.keep_alive_interval, idle })
    } else if config.path_idle_timeout.length() >= idle.length() {
        Some(ConfigError::PathIdleNotShorter { path_idle: config.path_idle_timeout, idle })
    } else if idle.length() / 1_000_000 > MAX_CONFIG_WINDOW {
        Some(ConfigError::InvalidIdleTimeout(idle))
    } else {
        None
    }
}

/// Why the flow and recovery buffers of transport controls are refused, if they are.
pub open spec fn buffer_refusal(config: QuicpTransportConfig) -> Option<ConfigError> {
    if config.ack_eliciting_threshold == 0 || config.flow_write_buffer_bytes == 0 {
        Some(ConfigError::ZeroTransportValue("ACK or flow buffer"))
    } else if config.recovery_memory_budget_bytes == 0 {
        Some(ConfigError::ZeroTransportValue("recovery_memory_budget_bytes"))
    } else if config.recovery_memory_budget_bytes > MAX_RECOVERY_MEMORY_BUDGET_BYTES {
        Some(
            ConfigError::InvalidTransportBuffer {
                name: "recovery_memory_budget_bytes",
                value: config.recovery_memory_budget_bytes,
                maximum: MAX_RECOVERY_MEMORY_BUDGET_BYTES,
            },
        )
    } else if config.flow_write_buffer_bytes > MAX_FLOW_BUFFER_BYTES {
        Some(
            ConfigError::InvalidTransportBuffer {
                name: "flow_write_buffer_bytes",
                value: config.flow_write_buffer_bytes,
                maximum: MAX_FLOW_BUFFER_BYTES,
            },
        )
    } else {
        recovery_refusal(config.recovery, config.flow_write_buffer_bytes)
    }
}

/// Why the connection limits of transport controls are refused, if they are.
pub open spec fn resource_refusal(config: QuicpTransportConfig) -> Option<ConfigError> {
    if config.max_pending_handshakes == 0 || config.pending_handshake_buffer_bytes == 0
        || config.max_active_connections == 0 || config.max_active_connections_per_peer == 0 {
        Some(ConfigError::ZeroTransportValue("resource limit"))
    } else if config.pending_handshake_buffer_bytes > MAX_PENDING_HANDSHAKE_BUFFER_BYTES {
        Some(
            ConfigError::InvalidTransportBuffer {
                name: "pending_handshake_buffer_bytes",
                value: config.pending_handshake_buffer_bytes,
                maximum: MAX_PENDING_HANDSHAKE_BUFFER_BYTES,
            },
        )
    } else if config.max_active_connections_per_peer > config.max_active_connections {
        Some(
            ConfigError::PerPeerLimitExceedsGlobal {
                per_peer: config.max_active_connections_per_peer,
                global: config.max_active_connections,
            },
        )
    } else {
        None
    }
}

/// Why transport controls are refused, if they are: the first rule that they break.
pub open spec fn transport_refusal(config: QuicpTransportConfig) -> Option<ConfigError> {
    first_refusal(
        mtu::mtu_refusal(config.mtu),
        first_refusal(
            window_refusal(config),
            first_refusal(
                timer_refusal(config),
                first_refusal(buffer_refusal(config), resource_refusal(config)),
            ),
        ),
    )
}

/// What is asked of transport controls.
pub open spec fn sound_transport(config: QuicpTransportConfig) -> bool {
    &&& mtu::sound_mtu(config.mtu)
    &&& 0 < config.connection_send_window <= MAX_CONFIG_WINDOW
    &&& 0 < config.connection_receive_window <= MAX_CONFIG_WINDOW
    &&& config.stream_receive_window > 0
    &&& config.max_concurrent_bidi_streams > 0
    &&& 0 < config.keep_alive_interval.length() < config.idle_timeout.length()
    &&& 0 < config.path_idle_timeout.length() < config.idle_timeout.length()
    &&& config.max_ack_delay.length() > 0
    &&& config.idle_timeout.length() / 1_000_000 <= MAX_CONFIG_WINDOW
    &&& config.ack_eliciting_threshold > 0
    &&& 0 < config.flow_write_buffer_bytes <= MAX_FLOW_BUFFER_BYTES
    &&& 0 < config.recovery_memory_budget_bytes <= MAX_RECOVERY_MEMORY_BUDGET_BYTES
    &&& sound_recovery(config.recovery, config.flow_write_buffer_bytes)
    &&& config.max_pending_handshakes > 0
    &&& 0 < config.pending_handshake_buffer_bytes <= MAX_PENDING_HANDSHAKE_BUFFER_BYTES
    &&& 0 < config.max_active_connections_per_peer <= config.max_active_connections
}

/// Transport controls are accepted exactly where they are sound.
pub proof fn law_sound_transport_is_accepted(config: QuicpTransportConfig)
    ensures
        transport_refusal(config) is None <==> sound_transport(config),
{
    mtu::law_sound_mtu_is_accepted(config.mtu);
    law_sound_recovery_is_accepted(config.recovery, config.flow_write_buffer_bytes);
}

/// The default transport controls are accepted.
pub proof fn law_default_transport_is_accepted()
    ensures
        default_transport().wf(),
        transport_refusal(default_transport()) is None,
{
    law_sound_transport_is_accepted(default_transport());
}

impl QuicpTransportConfig {
    /// Replaces the MTU and PMTU policy.
    pub fn with_mtu(self, mtu: MtuConfig) -> (config: Self)
        ensures
            config == (QuicpTransportConfig { mtu, ..self }),
    {
        QuicpTransportConfig { mtu, ..self }
    }

    /// Selects the built-in congestion controller.
    pub fn with_congestion_control(self, congestion_control: CongestionControl) -> (config: Self)
        ensures
            config == (QuicpTransportConfig { congestion_control, ..self }),
    {
        QuicpTransportConfig { congestion_control, ..self }
    }

    /// Selects the default TCP_NODELAY-like flow behavior.
    pub fn with_nodelay(self, nodelay: bool) -> (config: Self)
        ensures
            config == (QuicpTransportConfig { default_nodelay: nodelay, ..self }),
    {
        QuicpTransportConfig { default_nodelay: nodelay, ..self }
    }

    /// Replaces the QUICP/2 recovery policy.
    pub fn with_recovery(self, recovery: RecoveryConfig) -> (config: Self)
        ensures
            config == (QuicpTransportConfig { recovery, ..self }),
    {
        QuicpTransportConfig { recovery, ..self }
    }

    /// Checks the controls.
    pub fn validate(&self) -> (result: Result<(), ConfigError>)
        requires
            self.wf(),
        ensures
            match transport_refusal(*self) {
                Some(error) => result == Err::<(), ConfigError>(error),
                None => result is Ok,
            },
    {
        if let Err(error) = self.mtu.validate() {
            return Err(error);
        }
        if self.connection_send_window == 0 || self.connection_send_window > MAX_CONFIG_WINDOW {
            return Err(ConfigError::InvalidTransportWindow(self.connection_send_window));
        }
        if self.connection_receive_window == 0 || self.connection_receive_window > MAX_CONFIG_WINDOW {
            return Err(ConfigError::InvalidTransportWindow(self.connection_receive_window));
        }
        if self.stream_receive_window == 0 {
            return Err(ConfigError::ZeroTransportValue("stream_receive_window"));
        }
        if self.max_concurrent_bidi_streams == 0 {
            return Err(ConfigError::ZeroTransportValue("max_concurrent_bidi_streams"));
        }
        if self.idle_timeout.is_zero() || self.keep_alive_interval.is_zero() || self.path_idle_timeout.is_zero()
            || self.max_ack_delay.is_zero() {
            return Err(ConfigError::ZeroTransportDuration);
        }
        if !self.keep_alive_interval.is_shorter(&self.idle_timeout) {
            return Err(
                ConfigError::KeepAliveNotShorter { keep_alive: self.keep_alive_interval, idle: self.idle_timeout },
            );
        }
        if !self.path_idle_timeout.is_shorter(&self.idle_timeout) {
            return Err(
                ConfigError::PathIdleNotShorter { path_idle: self.path_idle_timeout, idle: self.idle_timeout },
            );
        }
        if self.idle_timeout.as_millis() > MAX_CONFIG_WINDOW as u128 {
            return Err(ConfigError::InvalidIdleTimeout(self.idle_timeout));
        }
        if self.ack_eliciting_threshold == 0 || self.flow_write_buffer_bytes == 0 {
            return Err(ConfigError::ZeroTransportValue("ACK or flow buffer"));
        }
        if self.recovery_memory_budget_bytes == 0 {
            return Err(ConfigError::ZeroTransportValue("recovery_memory_budget_bytes"));
        }
        if self.recovery_memory_budget_bytes > MAX_RECOVERY_MEMORY_BUDGET_BYTES {
            return Err(
                ConfigError::InvalidTransportBuffer {
                    name: "recovery_memory_budget_bytes",
                    value: self.recovery_memory_budget_bytes,
                    maximum: MAX_RECOVERY_MEMORY_BUDGET_BYTES,
                },
            );
        }
        if self.flow_write_buffer_bytes > MAX_FLOW_BUFFER_BYTES {
            return Err(
                ConfigError::InvalidTransportBuffer {
                    name: "flow_write_buffer_bytes",
                    value: self.flow_write_buffer_bytes,
                    maximum: MAX_FLOW_BUFFER_BYTES,
                },
            );
        }
        if let Err(error) = self.recovery.validate(self.flow_write_buffer_bytes) {
            return Err(error);
        }
        if self.max_pending_handshakes == 0 || self.pending_handshake_buffer_bytes == 0
            || self.max_active_connections == 0 || self.max_active_connections_per_peer == 0 {
            return Err(ConfigError::ZeroTransportValue("resource limit"));
        }
        if self.pending_handshake_buffer_bytes > MAX_PENDING_HANDSHAKE_BUFFER_BYTES {
            return Err(
                ConfigError::InvalidTransportBuffer {
                    name: "pending_handshake_buffer_bytes",
                    value: self.pending_handshake_buffer_bytes,
                    maximum: MAX_PENDING_HANDSHAKE_BUFFER_BYTES,
                },
            );
        }
        if self.max_active_connections_per_peer > self.max_active_connections {
            return Err(
                ConfigError::PerPeerLimitExceedsGlobal {
                    per_peer: self.max_active_connections_per_peer,
                    global: self.max_active_connections,
                },
            );
        }
        Ok(())
    }
}

}
