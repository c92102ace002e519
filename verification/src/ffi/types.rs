//! The values that cross the interface.
use crate::address::{IpAddress, SocketAddress};
use crate::config::path::FilePath;
use crate::config::tls;
use crate::config::tls::{ClientTls, ClientTlsModel, ServerTls, ServerTlsModel};
use crate::config::transport::RecoveryMode;
use crate::endian;
use crate::text;
use vstd::prelude::*;

verus! {

/// Current native interface version.
pub const ABI_VERSION: u32 = 3;

/// The most paths of an engine.
pub const MAX_PATHS: usize = 2;

/// The longest string that an engine takes.
pub const MAX_FFI_STRING_BYTES: usize = 4096;

/// The most initial bytes of a replay-safe open.
pub const MAX_EARLY_INITIAL_BYTES: usize = 32 * 1024;

/// The shortest secret of a replay policy.
pub const MIN_REPLAY_SECRET_BYTES: usize = 32;

/// Maximum packet slots accepted per direction and path by the engine.
pub const MAX_ENGINE_PACKET_CAPACITY: u32 = 4096;

/// Maximum aggregate packet-queue payload allocation accepted by the engine.
pub const MAX_ENGINE_QUEUE_BYTES: usize = 64 * 1024 * 1024;

/// Stable statuses of the interface.
#[derive(Clone, Copy, Debug, PartialEq, Eq, Structural)]
pub enum FfiStatus {
    /// Completed.
    Completed,
    /// Retry after ingress, egress, timer, or drive progress.
    WouldBlock,
    /// The caller-owned output buffer is too small.
    BufferTooSmall,
    /// A pointer, length, address, handle, or operation is invalid.
    InvalidArgument,
    /// Connection establishment has not completed.
    NotReady,
    /// The engine or flow is closed.
    Closed,
    /// A panic was contained at the boundary.
    Panic,
    /// A protocol operation failed.
    Failed,
}

impl FfiStatus {
    /// The number of the status.
    pub open spec fn number(self) -> u32 {
        match self {
            FfiStatus::Completed => 0,
            FfiStatus::WouldBlock => 1,
            FfiStatus::BufferTooSmall => 2,
            FfiStatus::InvalidArgument => 3,
            FfiStatus::NotReady => 4,
            FfiStatus::Closed => 5,
            FfiStatus::Panic => 6,
            FfiStatus::Failed => 7,
        }
    }

    /// The number of the status.
    pub fn code(self) -> (code: u32)
        ensures
            code == self.number(),
    {
        match self {
            FfiStatus::Completed => 0,
            FfiStatus::WouldBlock => 1,
            FfiStatus::BufferTooSmall => 2,
            FfiStatus::InvalidArgument => 3,
            FfiStatus::NotReady => 4,
            FfiStatus::Closed => 5,
            FfiStatus::Panic => 6,
            FfiStatus::Failed => 7,
        }
    }
}

/// Endpoint role.
#[derive(Clone, Copy, Debug, PartialEq, Eq, Structural)]
pub enum FfiRole {
    /// Initiates one connection.
    Client,
    /// Accepts one connection.
    Server,
}

impl FfiRole {
    /// The number of the role.
    pub open spec fn number(self) -> u32 {
        match self {
            FfiRole::Client => 1,
            FfiRole::Server => 2,
        }
    }

    /// The role of a number.
    pub open spec fn numbered(code: u32) -> Option<FfiRole> {
        if code == 1 {
            Some(FfiRole::Client)
        } else if code == 2 {
            Some(FfiRole::Server)
        } else {
            None
        }
    }

    /// The number of the role.
    pub fn code(self) -> (code: u32)
        ensures
            code == self.number(),
            FfiRole::numbered(code) == Some(self),
    {
        match self {
            FfiRole::Client => 1,
            FfiRole::Server => 2,
        }
    }

    /// The role of a number.
    pub fn from_code(code: u32) -> (role: Option<FfiRole>)
        ensures
            role == FfiRole::numbered(code),
    {
        if code == 1 {
            Some(FfiRole::Client)
        } else if code == 2 {
            Some(FfiRole::Server)
        } else {
            None
        }
    }
}

/// Built-in recovery policy selected at engine creation.
#[derive(Clone, Copy, Debug, PartialEq, Eq, Structural)]
pub enum FfiRecoveryMode {
    /// DATAGRAM-first adaptive recovery with reliable fallback.
    Adaptive,
    /// Reliable control-stream transport only.
    ReliableOnly,
}

impl FfiRecoveryMode {
    /// The number of the mode.
    pub open spec fn number(self) -> u32 {
        match self {
            FfiRecoveryMode::Adaptive => 1,
            FfiRecoveryMode::ReliableOnly => 2,
        }
    }

    /// The number of the mode.
    pub fn code(self) -> (code: u32)
        ensures
            code == self.number(),
    {
        match self {
            FfiRecoveryMode::Adaptive => 1,
            FfiRecoveryMode::ReliableOnly => 2,
        }
    }
}

/// The recovery mode of a number.
pub open spec fn recovery_numbered(code: u32) -> Option<RecoveryMode> {
    if code == FfiRecoveryMode::Adaptive.number() {
        Some(RecoveryMode::Adaptive)
    } else if code == FfiRecoveryMode::ReliableOnly.number() {
        Some(RecoveryMode::ReliableOnly)
    } else {
        None
    }
}

/// The recovery mode of a number.
pub fn recovery_from_code(code: u32) -> (mode: Option<RecoveryMode>)
    ensures
        mode == recovery_numbered(code),
{
    if code == 1 {
        Some(RecoveryMode::Adaptive)
    } else if code == 2 {
        Some(RecoveryMode::ReliableOnly)
    } else {
        None
    }
}

/// IPv4 or IPv6 socket address of a stable layout.
#[derive(Clone, Copy, Debug, PartialEq, Eq)]
pub struct FfiSocketAddress {
    /// `4` or `6`.
    pub family: u32,
    /// Host-order port.
    pub port: u16,
    /// Must be zero.
    pub reserved: u16,
    /// IPv4 occupies the first four bytes and requires a zero tail.
    pub address: [u8; 16],
}

/// Whether every field of an address is zero.
pub open spec fn zero_address(given: FfiSocketAddress) -> bool {
    &&& given.family == 0
    &&& given.port == 0
    &&& given.reserved == 0
    &&& given.address@ == Seq::new(16, |i: int| 0u8)
}

impl Default for FfiSocketAddress {
    fn default() -> (address: Self)
        ensures
            zero_address(address),
    {
        let address: [u8; 16] = [0; 16];
        assert(address@ =~= Seq::new(16, |i: int| 0u8));
        FfiSocketAddress { family: 0, port: 0, reserved: 0, address }
    }
}

/// The socket address that foreign values stand for, if they stand for one.
pub open spec fn socket_of(given: FfiSocketAddress) -> Option<SocketAddress> {
    if given.port == 0 || given.reserved != 0 {
        None
    } else if given.family == 4 && (forall|i: int| 4 <= i < 16 ==> #[trigger] given.address@[i] == 0) {
        Some(
            SocketAddress {
                ip: IpAddress::V4(endian::be32_at(given.address@, 0)),
                port: given.port,
                flow_info: 0,
                scope_id: 0,
            },
        )
    } else if given.family == 6 {
        Some(
            SocketAddress {
                ip: IpAddress::V6(endian::be128_at(given.address@, 0)),
                port: given.port,
                flow_info: 0,
                scope_id: 0,
            },
        )
    } else {
        None
    }
}

impl FfiSocketAddress {
    /// Reads the address.
    pub fn get(&self) -> (address: Option<SocketAddress>)
        ensures
            address == socket_of(*self),
    {
        if self.port == 0 || self.reserved != 0 {
            return None;
        }
        let octets: &[u8] = self.address.as_slice();
        if self.family == 4 {
            let mut at: usize = 4;
            while at < 16
                invariant
                    4 <= at <= 16,
                    self.family == 4,
                    octets@ == self.address@,
                    octets@.len() == 16,
                    forall|i: int| 4 <= i < at ==> #[trigger] self.address@[i] == 0,
                decreases 16 - at,
            {
                if octets[at] != 0 {
                    assert(self.address@[at as int] != 0);
                    return None;
                }
                at += 1;
            }
            Some(
                SocketAddress {
                    ip: IpAddress::V4(endian::read_be32_at(octets, 0)),
                    port: self.port,
                    flow_info: 0,
                    scope_id: 0,
                },
            )
        } else if self.family == 6 {
            Some(
                SocketAddress {
                    ip: IpAddress::V6(endian::read_be128_at(octets, 0)),
                    port: self.port,
                    flow_info: 0,
                    scope_id: 0,
                },
            )
        } else {
            None
        }
    }
}

/// One fixed-peer underlay path.
#[derive(Clone, Copy, Debug, PartialEq, Eq)]
pub struct FfiPathConfig {
    /// Local address exposed to QUIC.
    pub local: FfiSocketAddress,
    /// Remote peer accepted on this path.
    pub peer: FfiSocketAddress,
}

impl Default for FfiPathConfig {
    fn default() -> (path: Self)
        ensures
            zero_address(path.local),
            zero_address(path.peer),
    {
        FfiPathConfig { local: FfiSocketAddress::default(), peer: FfiSocketAddress::default() }
    }
}

/// Bounded engine construction values.
#[derive(Clone, Copy, Debug)]
pub struct FfiEngineConfig {
    /// Must equal [`ABI_VERSION`].
    pub abi_version: u32,
    /// The number of an [`FfiRole`].
    pub role: u32,
    /// One for single path, two for primary/backup.
    pub path_count: u32,
    /// Primary, then optional backup.
    pub paths: [FfiPathConfig; 2],
    /// Datagram slots in each direction per path.
    pub packet_capacity: u32,
    /// Maximum underlay datagram bytes.
    pub mtu: u32,
    /// The number of an [`FfiRecoveryMode`].
    pub recovery_mode: u32,
}

/// One UTF-8 string borrowed only for an engine-creation call.
#[derive(Clone, Copy, Debug, PartialEq, Eq, Structural)]
pub struct FfiBytes {
    /// The address of readable bytes, not NUL terminated.
    pub data: usize,
    /// Exact byte length.
    pub length: u32,
}

/// Mutual-TLS identity and trust paths borrowed only during engine creation.
#[derive(Clone, Copy, Debug, PartialEq, Eq, Structural)]
pub struct FfiTlsConfig {
    /// Client-authenticated DNS name; empty for a server engine.
    pub server_name: FfiBytes,
    /// Client: server CA. Server: client CA.
    pub ca_certificate: FfiBytes,
    /// Client or server certificate-chain path.
    pub certificate: FfiBytes,
    /// Client or server private-key path.
    pub private_key: FfiBytes,
}

/// How many bytes of a string are to be read; none of one that is empty or refused.
pub open spec fn string_bytes(value: FfiBytes) -> int {
    if value.data == 0 || value.length > MAX_FFI_STRING_BYTES {
        0
    } else {
        value.length as int
    }
}

/// How many bytes of a string are to be read; none of one that is empty or refused.
pub fn readable_bytes(value: FfiBytes) -> (length: usize)
    ensures
        length == string_bytes(value),
{
    if value.data == 0 || value.length as usize > MAX_FFI_STRING_BYTES {
        0
    } else {
        value.length as usize
    }
}

/// Whether a string is accepted, given the bytes that were read for it.
pub open spec fn string_accepted(value: FfiBytes, bytes: Seq<u8>, allow_empty: bool) -> bool {
    if value.length == 0 {
        allow_empty
    } else {
        value.data != 0 && value.length <= MAX_FFI_STRING_BYTES && vstd::utf8::valid_utf8(bytes)
    }
}

/// Takes a string over: `bytes` are those that [`readable_bytes`] asks for.
pub fn ffi_string(value: FfiBytes, bytes: &[u8], allow_empty: bool) -> (result: Result<String, FfiStatus>)
    requires
        bytes@.len() == string_bytes(value),
    ensures
        match result {
            Ok(string) => string_accepted(value, bytes@, allow_empty) && string@ == vstd::utf8::decode_utf8(bytes@),
            Err(status) => !string_accepted(value, bytes@, allow_empty) && status == FfiStatus::InvalidArgument,
        },
{
    if value.length == 0 {
        if allow_empty {
            let empty: String = String::new();
            assert(vstd::utf8::decode_utf8(bytes@) =~= Seq::<char>::empty());
            assert(empty@ =~= Seq::<char>::empty());
            return Ok(empty);
        }
        return Err(FfiStatus::InvalidArgument);
    }
    if value.data == 0 || value.length as usize > MAX_FFI_STRING_BYTES {
        return Err(FfiStatus::InvalidArgument);
    }
    match text::from_utf8(bytes) {
        Some(decoded) => Ok(decoded.to_owned()),
        None => Err(FfiStatus::InvalidArgument),
    }
}

/// How an engine is secured.
#[derive(Debug)]
pub enum FfiSecurity {
    /// Not at all.
    Insecure,
    /// As a client.
    ClientTls(ClientTls),
    /// As a server.
    ServerTls(ServerTls),
}

/// What comes of TLS settings for an engine.
pub open spec fn secured(
    role: u32,
    server_name: String,
    ca: FilePath,
    certificate: FilePath,
    key: FilePath,
    result: Result<FfiSecurity, FfiStatus>,
) -> bool {
    let client = ClientTlsModel { server_name, ca_cert: ca, client_cert: certificate, client_key: key };
    let server = ServerTlsModel { server_cert: certificate, server_key: key, client_ca: ca };
    match FfiRole::numbered(role) {
        Some(FfiRole::Client) => if tls::client_tls_refusal(client) is None {
            result matches Ok(FfiSecurity::ClientTls(settings)) && settings@ == client
        } else {
            result == Err::<FfiSecurity, FfiStatus>(FfiStatus::InvalidArgument)
        },
        Some(FfiRole::Server) => if server_name@.len() == 0 && tls::server_tls_refusal(server) is None {
            result matches Ok(FfiSecurity::ServerTls(settings)) && settings@ == server
        } else {
            result == Err::<FfiSecurity, FfiStatus>(FfiStatus::InvalidArgument)
        },
        None => result == Err::<FfiSecurity, FfiStatus>(FfiStatus::InvalidArgument),
    }
}

/// Builds the TLS settings of an engine. A server has no server name.
pub fn ffi_security(role: u32, server_name: String, ca: FilePath, certificate: FilePath, key: FilePath) -> (result:
    Result<FfiSecurity, FfiStatus>)
    ensures
        secured(role, server_name, ca, certificate, key, result),
{
    match FfiRole::from_code(role) {
        Some(FfiRole::Client) => match ClientTls::new(server_name, ca, certificate, key) {
            Ok(settings) => Ok(FfiSecurity::ClientTls(settings)),
            Err(_) => Err(FfiStatus::InvalidArgument),
        },
        Some(FfiRole::Server) => {
            if server_name.as_str().unicode_len() != 0 {
                return Err(FfiStatus::InvalidArgument);
            }
            match ServerTls::new(certificate, key, ca) {
                Ok(settings) => Ok(FfiSecurity::ServerTls(settings)),
                Err(_) => Err(FfiStatus::InvalidArgument),
            }
        },
        None => Err(FfiStatus::InvalidArgument),
    }
}

/// Recovery counters and gauges copied from one ready connection.
#[derive(Clone, Copy, Debug, PartialEq, Eq, Structural)]
pub struct FfiRecoverySnapshot {
    /// Source DATAGRAMs sent.
    pub source_sent: u64,
    /// Valid source DATAGRAMs received.
    pub source_received: u64,
    /// Repair DATAGRAMs sent.
    pub repair_sent: u64,
    /// Source symbols recovered from repairs.
    pub recovered: u64,
    /// Source records replayed.
    pub replayed: u64,
    /// Source records sent through reliable fallback.
    pub fallback: u64,
    /// Invalid or over-limit DATAGRAMs dropped.
    pub dropped: u64,
    /// Replay-safe early opens admitted.
    pub early_accepted: u64,
    /// Replay-safe early opens rejected.
    pub early_rejected: u64,
    /// Aggregate packets lost on outbound QUIC paths.
    pub path_lost_packets: u64,
    /// Largest current path RTT, in microseconds.
    pub max_path_rtt_micros: u64,
    /// DATAGRAMs waiting for backend send capacity.
    pub queued_datagrams: u64,
    /// Bytes retained in the source coding window.
    pub retained_source_bytes: u64,
}

impl Default for FfiRecoverySnapshot {
    fn default() -> (snapshot: Self)
        ensures
            snapshot == (FfiRecoverySnapshot {
                source_sent: 0,
                source_received: 0,
                repair_sent: 0,
                recovered: 0,
                replayed: 0,
                fallback: 0,
                dropped: 0,
                early_accepted: 0,
                early_rejected: 0,
                path_lost_packets: 0,
                max_path_rtt_micros: 0,
                queued_datagrams: 0,
                retained_source_bytes: 0,
            }),
    {
        FfiRecoverySnapshot {
            source_sent: 0,
            source_received: 0,
            repair_sent: 0,
            recovered: 0,
            replayed: 0,
            fallback: 0,
            dropped: 0,
            early_accepted: 0,
            early_rejected: 0,
            path_lost_packets: 0,
            max_path_rtt_micros: 0,
            queued_datagrams: 0,
            retained_source_bytes: 0,
        }
    }
}

}
