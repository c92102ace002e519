//! Configuration loading and validation errors.
use crate::address::{IpAddress, SocketAddress};
use crate::config::duration::Duration;
use crate::config::multipath::MultipathMode;
use crate::config::path::FilePath;
use vstd::prelude::*;

verus! {

/// Configuration loading and validation errors.
#[allow(inconsistent_fields)]
#[derive(Debug)]
pub enum ConfigError {
    /// A trusted-file path was relative.
    PathNotAbsolute,
    /// Owner-only trusted-file loading is unavailable on this platform.
    UnsupportedPlatform,
    /// Opening a trusted file without following symlinks failed: its path has no file
    /// name, or a parent component.
    SecureOpen,
    /// A trusted file exceeded its bounded size.
    FileTooLarge(FilePath),
    /// A trusted path did not resolve to a regular file.
    NotRegularFile(FilePath),
    /// A trusted file is not owned by the current effective user.
    WrongOwner {
        /// Rejected file path.
        path: FilePath,
        /// Observed owner identifier.
        owner: u32,
    },
    /// A trusted file is writable by group or other users.
    InsecurePermissions {
        /// Rejected file path.
        path: FilePath,
        /// Observed Unix permission mode.
        mode: u32,
    },
    /// A trusted Windows file has an unsafe owner or ACL.
    InsecureAcl(FilePath),
    /// A path mode was paired with the wrong number of candidates.
    CandidateCount {
        /// Selected path mode.
        mode: MultipathMode,
        /// Required candidate count.
        expected: usize,
        /// Observed candidate count.
        actual: usize,
    },
    /// Two candidates used the same local/remote tuple.
    DuplicateCandidateTuple {
        /// Duplicate local source address.
        local_ip: IpAddress,
        /// Duplicate remote server address.
        server_addr: SocketAddress,
    },
    /// A candidate mixed IPv4 and IPv6 endpoints.
    AddressFamilyMismatch {
        /// Rejected local source address.
        local_ip: IpAddress,
        /// Rejected server address.
        server_addr: SocketAddress,
    },
    /// A candidate used an unspecified, multicast, or otherwise unusable address.
    UnusableCandidateAddress {
        /// Rejected local source address.
        local_ip: IpAddress,
        /// Rejected server address.
        server_addr: SocketAddress,
    },
    /// A server configuration supplied no listen addresses.
    EmptyListenAllowlist,
    /// A server listen address appeared more than once.
    DuplicateListenAddress(SocketAddress),
    /// A configured socket address used port zero.
    ZeroPort,
    /// The carrier-cookie secret path was relative.
    CookieSecretPathNotAbsolute(FilePath),
    /// The carrier-cookie secret file was empty.
    CookieSecretEmpty(FilePath),
    /// Client TLS settings supplied an empty server name.
    EmptyTlsServerName,
    /// A TLS material path was relative.
    TlsPathNotAbsolute(FilePath),
    /// TLS was requested without its optional backend.
    TlsFeatureDisabled,
    /// The no-security profile was not explicitly selected.
    InsecureProfileRequiresOptIn,
    /// TLS was combined with the explicit no-security opt-in.
    TlsWithInsecureOptIn,
    /// The complete outer IP MTU is outside the supported envelope.
    InvalidOuterMtu(u16),
    /// A QUIC payload is outside the backend's supported bounds.
    InvalidPayload {
        /// Configuration field name.
        name: &'static str,
        /// Rejected value.
        value: u16,
    },
    /// MTU payload values are not monotonically ordered.
    MtuOrdering {
        /// Configured minimum payload.
        minimum: u16,
        /// Configured initial payload.
        initial: u16,
        /// Configured upper payload.
        upper: Option<u16>,
    },
    /// The configured payload cannot fit the carrier envelope.
    PayloadExceedsCarrier {
        /// Requested payload.
        payload: u16,
        /// Derived carrier ceiling.
        maximum: u16,
    },
    /// A fixed MSS is outside the safe carrier envelope.
    InvalidMss {
        /// Rejected MSS.
        mss: u16,
        /// Safe MSS ceiling.
        maximum: u16,
    },
    /// A PMTU timer was zero.
    ZeroPmtuDuration,
    /// A PMTU minimum change was zero.
    ZeroPmtuChange,
    /// A transport window was outside the QUIC variable-integer range.
    InvalidTransportWindow(u64),
    /// A bounded transport buffer exceeded the implementation safety limit.
    InvalidTransportBuffer {
        /// Configuration field name.
        name: &'static str,
        /// Rejected byte count.
        value: u32,
        /// Maximum supported byte count.
        maximum: u32,
    },
    /// A QUICP/2 recovery bound is outside its supported range.
    InvalidRecoveryLimit {
        /// Rejected field name.
        name: &'static str,
        /// Rejected value.
        value: u32,
        /// Smallest accepted value.
        minimum: u32,
        /// Largest accepted value.
        maximum: u32,
    },
    /// Recovery fields describe an internally inconsistent policy.
    InvalidRecoveryPolicy,
    /// A transport value that must be positive was zero.
    ZeroTransportValue(&'static str),
    /// A transport duration that must be positive was zero.
    ZeroTransportDuration,
    /// The connection idle timeout cannot be represented by QUIC's millisecond varint.
    InvalidIdleTimeout(Duration),
    /// Keepalive would not prevent the idle timeout.
    KeepAliveNotShorter {
        /// Configured keepalive interval.
        keep_alive: Duration,
        /// Configured idle timeout.
        idle: Duration,
    },
    /// A path would expire after the connection has already expired.
    PathIdleNotShorter {
        /// Configured path idle timeout.
        path_idle: Duration,
        /// Configured connection idle timeout.
        idle: Duration,
    },
    /// A per-peer limit exceeded the global active-connection limit.
    PerPeerLimitExceedsGlobal {
        /// Per-peer limit.
        per_peer: u16,
        /// Global limit.
        global: u16,
    },
    /// The handshake memory-budget multiplication overflowed.
    HandshakeBudgetOverflow,
    /// PMTU probing was required on a carrier that may fragment.
    PmtuRequiresNonFragmentingCarrier,
}

}
