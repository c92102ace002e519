//! What a configuration may say, and what it says where nothing is given.
use crate::address::{IpAddress, SocketAddress};
use crate::config::carrier::CarrierConfig;
use crate::config::endpoint;
use crate::config::endpoint::{ClientConfig, ServerConfig};
use crate::config::error::ConfigError;
use crate::config::mtu;
use crate::config::mtu::{MssMode, MtuConfig};
use crate::config::multipath::{Multipath, MultipathMode, PathCandidate};
use crate::config::path::FilePath;
use crate::config::tls::{ClientTls, ServerTls};
use crate::config::transport;
use crate::config::transport::{QuicpTransportConfig, RecoveryConfig};
use crate::config::trust;
use crate::config::trust::{AccessEntry, FileFacts, FileSecurity, TrustedFileMode};
use crate::host_schedule;
use vstd::prelude::*;

verus! {

/// Recovery controls are accepted exactly where they say something that can be done: repairs
/// of 1 to 256 sources, a decoder window of 512 to 4096, 1 to 32 acknowledged ranges, buffers
/// between the one of a flow and 16 MiB, at most 256 symbols before a flow opens, 1 to 4096
/// units of work, and a mode that fits what is required.
pub proof fn law_recovery_controls_are_bounded(
    config: RecoveryConfig,
    flow_buffer_bytes: u32,
    result: Result<(), ConfigError>,
)
    requires
        call_ensures(RecoveryConfig::validate, (config, flow_buffer_bytes), result),
    ensures
        result is Ok <==> {
            &&& config.require_adaptive ==> config.mode is Adaptive
            &&& 1 <= config.max_repair_span <= 256
            &&& 512 <= config.decoder_window <= 4096
            &&& 1 <= config.max_ack_ranges <= 32
            &&& flow_buffer_bytes <= config.replay_buffer_bytes <= 16_777_216
            &&& flow_buffer_bytes <= config.reassembly_buffer_bytes <= 16_777_216
            &&& config.pre_open_symbols <= 256
            &&& 1 <= config.work_budget <= 4096
        },
{
    assert(16_777_216 == 16 * 1024 * 1024);
}

/// Sizes of packets are accepted exactly where the outer MTU is at least 1260, all payloads lie
/// between 1200 and 65527 in their order, the timers of the search are not zero, and neither
/// are its smallest step and a fixed segment size.
pub proof fn law_packet_sizes_are_bounded(config: MtuConfig, result: Result<(), ConfigError>)
    requires
        call_ensures(MtuConfig::validate, (&config,), result),
    ensures
        result is Ok <==> {
            &&& config.outer_ip_mtu >= 1260
            &&& 1200 <= config.min_quic_payload <= config.initial_quic_payload <= 65527
            &&& config.max_quic_payload matches Some(maximum) ==> config.initial_quic_payload <= maximum <= 65527
            &&& config.pmtu_upper_bound matches Some(bound) ==> config.initial_quic_payload <= bound <= 65527 && (
            config.max_quic_payload matches Some(maximum) ==> bound <= maximum)
            &&& host_schedule::nanoseconds(config.pmtu_interval) > 0
            &&& host_schedule::nanoseconds(config.pmtu_black_hole_cooldown) > 0
            &&& config.pmtu_minimum_change > 0
            &&& config.mss matches MssMode::Fixed(mss) ==> 1 <= mss <= 65527
        },
{
}

/// Transport controls are accepted exactly where their windows, buffers, counts and times are
/// neither zero nor too large, a connection is kept alive and its paths idle for less time than
/// it may idle itself, and no peer may have more connections than there may be.
pub proof fn law_transport_controls_are_bounded(
    config: QuicpTransportConfig,
    result: Result<(), ConfigError>,
    sizes: Result<(), ConfigError>,
    recovery: Result<(), ConfigError>,
)
    requires
        call_ensures(QuicpTransportConfig::validate, (&config,), result),
        call_ensures(MtuConfig::validate, (&config.mtu,), sizes),
        call_ensures(RecoveryConfig::validate, (config.recovery, config.flow_write_buffer_bytes), recovery),
    ensures
        result is Ok <==> {
            &&& sizes is Ok
            &&& recovery is Ok
            &&& 1 <= config.connection_send_window <= 0x3fff_ffff_ffff_ffff
            &&& 1 <= config.connection_receive_window <= 0x3fff_ffff_ffff_ffff
            &&& config.stream_receive_window > 0
            &&& config.max_concurrent_bidi_streams > 0
            &&& 0 < host_schedule::nanoseconds(config.keep_alive_interval) < host_schedule::nanoseconds(
                config.idle_timeout,
            )
            &&& 0 < host_schedule::nanoseconds(config.path_idle_timeout) < host_schedule::nanoseconds(config.idle_timeout)
            &&& host_schedule::nanoseconds(config.max_ack_delay) > 0
            &&& host_schedule::nanoseconds(config.idle_timeout) / 1_000_000 <= 0x3fff_ffff_ffff_ffff
            &&& config.ack_eliciting_threshold > 0
            &&& 1 <= config.flow_write_buffer_bytes <= 16_777_216
            &&& 1 <= config.recovery_memory_budget_bytes <= 1_073_741_824
            &&& config.max_pending_handshakes > 0
            &&& 1 <= config.pending_handshake_buffer_bytes <= 1_048_576
            &&& 1 <= config.max_active_connections_per_peer <= config.max_active_connections
        },
{
    transport::law_sound_transport_is_accepted(config);
    mtu::law_sound_mtu_is_accepted(config.mtu);
    transport::law_sound_recovery_is_accepted(config.recovery, config.flow_write_buffer_bytes);
}

/// Replacing one part of the transport controls leaves all others.
pub proof fn law_replaced_controls_leave_the_others(
    config: QuicpTransportConfig,
    sizes: MtuConfig,
    with_sizes: QuicpTransportConfig,
    nodelay: bool,
    with_nodelay: QuicpTransportConfig,
    recovery: RecoveryConfig,
    with_recovery: QuicpTransportConfig,
)
    requires
        call_ensures(QuicpTransportConfig::with_mtu, (config, sizes), with_sizes),
        call_ensures(QuicpTransportConfig::with_nodelay, (config, nodelay), with_nodelay),
        call_ensures(QuicpTransportConfig::with_recovery, (config, recovery), with_recovery),
    ensures
        with_sizes.mtu == sizes && with_sizes.recovery == config.recovery && with_sizes.default_nodelay
            == config.default_nodelay && with_sizes.idle_timeout == config.idle_timeout,
        with_nodelay.default_nodelay == nodelay && with_nodelay.mtu == config.mtu && with_nodelay.recovery
            == config.recovery,
        with_recovery.recovery == recovery && with_recovery.mtu == config.mtu && with_recovery.default_nodelay
            == config.default_nodelay,
{
}

// ---------------------------------------------------------------------------
// Payloads
// ---------------------------------------------------------------------------

/// The largest payload on a path is what the outer MTU leaves beside the headers, 40 bytes of
/// them with IPv4 and 60 with IPv6, or what is configured where that is less; it is refused
/// where the initial or the smallest payload does not fit it, or a fixed segment size does not
/// fit the MTU.
pub proof fn law_payload_leaves_room_for_the_headers(config: MtuConfig, ipv4: bool, result: Result<u16, ConfigError>)
    requires
        config.outer_ip_mtu >= 60,
        call_ensures(MtuConfig::safe_payload_for_family, (&config, ipv4), result),
    ensures
        ({
            let headers: int = if ipv4 {
                40
            } else {
                60
            };
            &&& result matches Ok(payload) ==> {
                &&& payload + headers <= config.outer_ip_mtu
                &&& payload <= 65527
                &&& config.max_quic_payload matches Some(maximum) ==> payload <= maximum
                &&& payload + headers == config.outer_ip_mtu || payload == 65527
                    || config.max_quic_payload == Some(payload)
                &&& config.initial_quic_payload <= payload && config.min_quic_payload <= payload
                &&& config.mss matches MssMode::Fixed(mss) ==> mss + headers <= config.outer_ip_mtu
            }
            &&& config.initial_quic_payload + headers <= config.outer_ip_mtu && config.min_quic_payload + headers
                <= config.outer_ip_mtu && config.initial_quic_payload <= 65527 && config.min_quic_payload <= 65527 && (
            config.max_quic_payload matches Some(maximum) ==> config.initial_quic_payload <= maximum
                && config.min_quic_payload <= maximum) && (config.mss matches MssMode::Fixed(mss) ==> mss + headers
                <= config.outer_ip_mtu) ==> result is Ok
        }),
{
}

// ---------------------------------------------------------------------------
// Paths
// ---------------------------------------------------------------------------

/// Whether an address stands for all hosts or for a group of them.
pub open spec fn several_hosts(ip: IpAddress) -> bool {
    match ip {
        IpAddress::V4(value) => value == 0 || 0xe000_0000 <= value <= 0xefff_ffff,
        IpAddress::V6(value) => value == 0 || value >= 0xff00_0000_0000_0000_0000_0000_0000_0000,
    }
}

/// A path is accepted exactly where both addresses are of one family, each is that of one
/// host, and the server's port is not zero.
pub proof fn law_path_leads_from_one_host_to_one(
    local_ip: IpAddress,
    server_addr: SocketAddress,
    result: Result<PathCandidate, ConfigError>,
)
    requires
        call_ensures(PathCandidate::new, (local_ip, server_addr), result),
    ensures
        result is Ok <==> {
            &&& (local_ip is V4 <==> server_addr.ip is V4)
            &&& !several_hosts(local_ip)
            &&& !several_hosts(server_addr.ip)
            &&& server_addr.port != 0
        },
        result matches Ok(candidate) ==> candidate.local() == local_ip && candidate.server() == server_addr,
{
    match local_ip {
        IpAddress::V4(value) => {
            assert((value / 0x1000_0000 == 14) == (0xe000_0000 <= value <= 0xefff_ffff));
        },
        IpAddress::V6(value) => {
            assert((value / 0x100_0000_0000_0000_0000_0000_0000_0000 == 255) == (value
                >= 0xff00_0000_0000_0000_0000_0000_0000_0000));
        },
    }
    match server_addr.ip {
        IpAddress::V4(value) => {
            assert((value / 0x1000_0000 == 14) == (0xe000_0000 <= value <= 0xefff_ffff));
        },
        IpAddress::V6(value) => {
            assert((value / 0x100_0000_0000_0000_0000_0000_0000_0000 == 255) == (value
                >= 0xff00_0000_0000_0000_0000_0000_0000_0000));
        },
    }
}

/// One path stands alone, and a failover has two that differ; both modes say how many.
pub proof fn law_failover_has_two_different_paths(
    primary: PathCandidate,
    backup: PathCandidate,
    single: Result<Multipath, ConfigError>,
    double: Result<Multipath, ConfigError>,
    mode: MultipathMode,
    limit: u8,
)
    requires
        call_ensures(Multipath::single, (primary,), single),
        call_ensures(Multipath::failover, (primary, backup), double),
        call_ensures(MultipathMode::path_limit, (mode,), limit),
    ensures
        single matches Ok(paths) ==> paths@.mode is Off && paths@.candidates.len() == 1
            && paths@.candidates[0] == primary,
        double matches Ok(paths) ==> paths@.mode is Failover && paths@.candidates.len() == 2 && paths@.candidates[0]
            == primary && paths@.candidates[1] == backup && primary != backup,
        single is Ok <==> crate::config::multipath::candidate_refusal(primary.local(), primary.server()) is None,
        limit == 1 <==> mode is Off,
        limit == 2 <==> mode is Failover,
{
    reveal_with_fuel(crate::config::multipath::candidates_refusal, 3);
    let one = seq![primary];
    assert(one.skip(1).len() == 0);
    let two = seq![primary, backup];
    assert(two.skip(1) =~= seq![backup]);
    assert(two.skip(1).skip(1).len() == 0);
}

// ---------------------------------------------------------------------------
// Security
// ---------------------------------------------------------------------------

/// An endpoint is either secured or insecure by choice, and never both.
pub proof fn law_endpoint_is_secured_or_insecure_by_choice(
    tls_configured: bool,
    allow_insecure: bool,
    tls_backend: bool,
    result: Result<(), ConfigError>,
)
    requires
        call_ensures(endpoint::validate_security_profile, (tls_configured, allow_insecure, tls_backend), result),
    ensures
        result is Ok <==> (tls_configured != allow_insecure) && (tls_configured ==> tls_backend),
        !tls_configured && !allow_insecure ==> result == Err::<(), ConfigError>(
            ConfigError::InsecureProfileRequiresOptIn,
        ),
        tls_configured && allow_insecure ==> result == Err::<(), ConfigError>(ConfigError::TlsWithInsecureOptIn),
{
}

/// TLS material is named by absolute paths, and a client names the server.
pub proof fn law_tls_material_has_absolute_paths(
    server_name: String,
    first: FilePath,
    second: FilePath,
    third: FilePath,
    client: Result<ClientTls, ConfigError>,
    server: Result<ServerTls, ConfigError>,
)
    requires
        call_ensures(ClientTls::new, (server_name, first, second, third), client),
        call_ensures(ServerTls::new, (first, second, third), server),
    ensures
        client is Ok <==> server_name@.len() > 0 && first.absolute && second.absolute && third.absolute,
        server is Ok <==> first.absolute && second.absolute && third.absolute,
        client matches Ok(tls) ==> tls@.ca_cert == first && tls@.client_cert == second && tls@.client_key == third,
        server matches Ok(tls) ==> tls@.server_cert == first && tls@.server_key == second && tls@.client_ca == third,
{
}

/// A secret for cookies has between 1 and 64 bytes, and its file an absolute path; the secret
/// is used as it was read.
pub proof fn law_cookie_secret_is_bounded(
    path: FilePath,
    made: Result<CarrierConfig, ConfigError>,
    config: CarrierConfig,
    bytes: Vec<u8>,
    loaded: Result<Vec<u8>, ConfigError>,
)
    requires
        call_ensures(CarrierConfig::new, (path,), made),
        call_ensures(CarrierConfig::load_cookie_secret, (&config, bytes), loaded),
    ensures
        made is Ok <==> path.absolute,
        made matches Ok(policy) ==> policy@.cookie_secret_file == path && !policy@.packet_socket,
        loaded is Ok <==> 1 <= bytes@.len() <= 64,
        loaded matches Ok(secret) ==> secret@ == bytes@,
{
}

/// A client without TLS is made only as an insecure one, and one with TLS never is; either has
/// the paths and the carrier that it was given.
pub proof fn law_client_is_what_it_was_made_as(
    settings: ClientTls,
    paths: Multipath,
    policy: CarrierConfig,
    plain: Result<ClientConfig, ConfigError>,
    secured: Result<ClientConfig, ConfigError>,
)
    requires
        call_ensures(ClientConfig::insecure, (paths, policy), plain),
        call_ensures(ClientConfig::with_tls, (settings, paths, policy), secured),
    ensures
        plain matches Ok(config) ==> config@.tls is None && config@.allow_insecure && config@.multipath == paths@
            && config@.carrier == policy@,
        secured matches Ok(config) ==> config@.tls == Some(settings@) && !config@.allow_insecure && config@.multipath
            == paths@ && config@.carrier == policy@,
{
}

/// A server listens on the addresses that it was given: at least one, none with port zero, and
/// none twice.
pub proof fn law_server_listens_where_it_was_told(
    addresses: Vec<SocketAddress>,
    policy: CarrierConfig,
    result: Result<ServerConfig, ConfigError>,
    left: int,
    right: int,
)
    requires
        call_ensures(ServerConfig::insecure, (addresses, policy), result),
        0 <= left < right < addresses@.len(),
    ensures
        result matches Ok(config) ==> config@.listen_addrs == addresses@ && config@.allow_insecure
            && config@.tls is None
            && addresses@[left] != addresses@[right] && addresses@[left].port != 0 && addresses@[right].port != 0,
        addresses@[left] == addresses@[right] ==> result is Err,
        addresses@[left].port == 0 || addresses@[right].port == 0 ==> result is Err,
{
    if endpoint::listen_refusal(addresses@) is None {
        endpoint::law_accepted_listen_addresses_are_distinct(addresses@);
    }
}

// ---------------------------------------------------------------------------
// Trusted files
// ---------------------------------------------------------------------------

/// A file is trusted exactly where its path is absolute, it is a regular file of the user or
/// the superuser, nobody else may write it, nobody else may do anything with it where it is
/// for its owner only, and it is not too long.
pub proof fn law_trusted_file_is_the_owners(
    path: FilePath,
    facts: FileFacts,
    current: u32,
    max_bytes: u64,
    mode: TrustedFileMode,
    result: Result<(), ConfigError>,
)
    requires
        call_ensures(trust::verify_file, (&path, facts, current, max_bytes, mode), result),
    ensures
        result is Ok <==> {
            &&& path.absolute
            &&& facts.regular
            &&& facts.owner == 0 || facts.owner == current
            &&& facts.mode / 16 % 2 == 0 && facts.mode / 2 % 2 == 0
            &&& mode is OwnerOnly ==> facts.mode % 64 == 0
            &&& facts.length <= max_bytes
        },
{
    let bits = facts.mode;
    assert((bits & 0o022 == 0) == (bits / 16 % 2 == 0 && bits / 2 % 2 == 0)) by (bit_vector);
    assert((bits & 0o077 == 0) == (bits % 64 == 0)) by (bit_vector);
}

/// Contents that are longer than they may be are refused, and others taken as they are.
pub proof fn law_contents_are_bounded(
    path: FilePath,
    bytes: Vec<u8>,
    max_bytes: u64,
    result: Result<Vec<u8>, ConfigError>,
)
    requires
        call_ensures(trust::accept_contents, (&path, bytes, max_bytes), result),
    ensures
        result is Ok <==> bytes@.len() <= max_bytes,
        result matches Ok(contents) ==> contents@ == bytes@,
{
}

/// A file without an access list, or whose owner is neither the user nor, where it must be the
/// system's, the system, is not trusted.
pub proof fn law_file_without_an_access_list_is_not_trusted(
    path: FilePath,
    security: FileSecurity,
    mode: TrustedFileMode,
    result: Result<(), ConfigError>,
    nothing: Result<(), ConfigError>,
)
    requires
        call_ensures(trust::verify_owner_and_acl, (&path, Some(&security), mode), result),
        call_ensures(trust::verify_owner_and_acl, (&path, None::<&FileSecurity>, mode), nothing),
    ensures
        nothing is Err,
        security.entries is None ==> result is Err,
        !(mode is SystemOwned) && security.owner@ != security.user@ ==> result is Err,
        mode is SystemOwned && !trust::system_identifier(security.owner@) ==> result is Err,
        (mode is SystemOwned ==> trust::system_identifier(security.owner@)) && (!(mode is SystemOwned)
            ==> security.owner@
            == security.user@) && (security.entries matches Some(entries) && entries@.len() == 0) ==> result is Ok,
{
}

/// The rights that change a file are those to write or append its data or attributes, to
/// delete it or what it holds, to change its list or owner, and the general ones to write or
/// to do all; an entry that gives one of them to somebody else is not trusted.
pub proof fn law_rights_to_change_are_not_given_away(
    path: FilePath,
    security: FileSecurity,
    mode: TrustedFileMode,
    entries: Vec<AccessEntry>,
    index: int,
    result: Result<(), ConfigError>,
)
    requires
        call_ensures(trust::verify_owner_and_acl, (&path, Some(&security), mode), result),
        security.entries == Some(entries),
        0 <= index < entries@.len(),
        entries@[index].kind == 0,
        entries@[index].flags / 8 % 2 == 0,
        entries@[index].sid@ != security.owner@,
        !trust::system_identifier(entries@[index].sid@),
        ({
            let mask = entries@[index].mask;
            ||| mode is OwnerOnly
            ||| mask / 0x2 % 2 == 1
            ||| mask / 0x4 % 2 == 1
            ||| mask / 0x10 % 2 == 1
            ||| mask / 0x40 % 2 == 1
            ||| mask / 0x100 % 2 == 1
            ||| mask / 0x1_0000 % 2 == 1
            ||| mask / 0x4_0000 % 2 == 1
            ||| mask / 0x8_0000 % 2 == 1
            ||| mask / 0x1000_0000 % 2 == 1
            ||| mask / 0x4000_0000 % 2 == 1
        }),
    ensures
        result is Err,
{
    let mask = entries@[index].mask;
    let flags = entries@[index].flags;
    assert((flags & 0x08 != 0) == (flags / 8 % 2 == 1)) by (bit_vector);
    assert((mask & 0x500d_0156 == 0) ==> mask / 0x2 % 2 == 0 && mask / 0x4 % 2 == 0 && mask / 0x10 % 2 == 0
        && mask / 0x40
        % 2 == 0 && mask / 0x100 % 2 == 0 && mask / 0x1_0000 % 2 == 0 && mask / 0x4_0000 % 2 == 0 && mask / 0x8_0000
        % 2 == 0 && mask / 0x1000_0000 % 2 == 0 && mask / 0x4000_0000 % 2 == 0) by (bit_vector);
    let entry = entries@[index];
    assert(!trust::entry_allowed(entry, security.owner@, mode));
    if trust::security_trusted(security, mode) {
        assert(trust::entry_allowed(security.entries->0@[index], security.owner@, mode));
    }
}

// ---------------------------------------------------------------------------
// Defaults
// ---------------------------------------------------------------------------

/// What the transport does where nothing is said: buffers of 256 KiB for what is sent and for
/// what is put together again, a write buffer of 32 KiB, no delay, repairs of up to 64 sources
/// where the peer takes them, and packets for an outer MTU of 1500.
pub proof fn law_defaults_of_the_transport(config: QuicpTransportConfig)
    requires
        call_ensures(<QuicpTransportConfig as Default>::default, (), config),
    ensures
        config.recovery.mode is Adaptive && !config.recovery.require_adaptive,
        config.recovery.max_repair_span == 64 && config.recovery.decoder_window == 512,
        config.recovery.replay_buffer_bytes == 262_144 && config.recovery.reassembly_buffer_bytes == 262_144,
        config.flow_write_buffer_bytes == 32_768 && config.default_nodelay,
        config.mtu.outer_ip_mtu == 1500 && config.mtu.initial_quic_payload == 1200,
        transport::transport_refusal(config) is None,
{
    transport::law_default_transport_is_accepted();
}

// ---------------------------------------------------------------------------
// What is never refused
// ---------------------------------------------------------------------------

proof fn lemma_families(config: MtuConfig, bound: u16, families: Seq<bool>, index: int)
    requires
        config.outer_ip_mtu >= 60,
        families.len() > 0,
        0 <= index < families.len(),
    ensures
        mtu::families_payload(config, bound, families) matches Ok(payload) ==> {
            &&& payload <= bound
            &&& mtu::family_payload(config, families[index]) matches Ok(own) && payload <= own
            &&& payload == bound || exists|at: int|
                0 <= at < families.len()
                    && mtu::family_payload(config, #[trigger] families[at]) == Ok::<u16, ConfigError>(
                    payload,
                )
        },
        (forall|at: int| 0 <= at < families.len() ==> mtu::family_payload(config, #[trigger] families[at]) is Ok)
            ==> mtu::families_payload(config, bound, families) is Ok,
    decreases families.len(),
{
    let front = families.drop_last();
    if front.len() > 0 {
        lemma_families(
            config,
            bound,
            front,
            if index < front.len() {
                index
            } else {
                0
            },
        );
        assert forall|at: int| 0 <= at < front.len() implies front[at] == families[at] by {}
        if mtu::families_payload(config, bound, families) is Ok {
            let payload = mtu::families_payload(config, bound, front)->Ok_0;
            if payload != bound {
                let at = choose|at: int|
                    0 <= at < front.len()
                        && mtu::family_payload(config, #[trigger] front[at]) == Ok::<u16, ConfigError>(
                        payload,
                    );
                assert(families[at] == front[at]);
            }
        }
        if forall|at: int| 0 <= at < families.len() ==> mtu::family_payload(config, #[trigger] families[at]) is Ok {
            assert forall|at: int| 0 <= at < front.len()
                implies mtu::family_payload(config, #[trigger] front[at]) is Ok by {
                assert(mtu::family_payload(config, families[at]) is Ok);
            }
            assert(mtu::family_payload(config, families[families.len() - 1]) is Ok);
        }
    } else {
        assert(families[families.len() - 1] == families.last());
    }
}

/// The ceiling for all paths is as high as each of them allows: it is the configured maximum,
/// the adapter's MTU, the bound of the search, or the payload of one of the families, and no
/// larger than any of these. It is refused only where the initial or the smallest payload
/// would not fit it, or a path allows none.
pub proof fn law_ceiling_is_as_high_as_every_path_allows(
    config: MtuConfig,
    adapter_mtu: Option<u16>,
    families: &[bool],
    result: Result<u16, ConfigError>,
    index: int,
)
    requires
        config.outer_ip_mtu >= 60,
        0 <= index < families@.len(),
        call_ensures(MtuConfig::static_payload_ceiling, (&config, adapter_mtu, families), result),
    ensures
        result matches Ok(ceiling) ==> {
            &&& mtu::family_payload(config, families@[index]) matches Ok(own) && ceiling <= own
            &&& config.max_quic_payload matches Some(maximum) ==> ceiling <= maximum
            &&& adapter_mtu matches Some(adapter) ==> ceiling <= adapter
            &&& config.pmtu_upper_bound matches Some(upper) ==> ceiling <= upper
            &&& ceiling <= 65527
            &&& config.initial_quic_payload <= ceiling && config.min_quic_payload <= ceiling
            &&& {
                ||| config.max_quic_payload == Some(ceiling)
                ||| ceiling == 65527
                ||| adapter_mtu == Some(ceiling)
                ||| config.pmtu_upper_bound == Some(ceiling)
                ||| exists|at: int|
                    0 <= at < families@.len() && mtu::family_payload(config, #[trigger] families@[at]) == Ok::<
                        u16,
                        ConfigError,
                    >(ceiling)
            }
        },
        (forall|at: int| 0 <= at < families@.len() ==> mtu::family_payload(config, #[trigger] families@[at]) is Ok) && (
        config.max_quic_payload matches Some(maximum) ==> maximum <= 65527 && config.initial_quic_payload <= maximum
            && config.min_quic_payload <= maximum) && (adapter_mtu matches Some(adapter) ==> config.initial_quic_payload
            <= adapter && config.min_quic_payload <= adapter) && (config.pmtu_upper_bound matches Some(upper)
            ==> config.initial_quic_payload <= upper && config.min_quic_payload <= upper) ==> result is Ok,
{
    let configured = match config.max_quic_payload {
        Some(maximum) => maximum,
        None => 65527,
    };
    let adapter = match adapter_mtu {
        Some(given) => mtu::smaller(configured as int, given as int) as u16,
        None => configured,
    };
    lemma_families(config, adapter, families@, index);
}

proof fn lemma_addresses_accepted(addresses: Seq<SocketAddress>, count: int)
    requires
        0 <= count <= addresses.len(),
        addresses.no_duplicates(),
        forall|at: int| 0 <= at < addresses.len() ==> (#[trigger] addresses[at]).port != 0,
    ensures
        endpoint::addresses_refusal(addresses, count) is None,
    decreases count,
{
    if count > 0 {
        lemma_addresses_accepted(addresses, count - 1);
        let last = addresses[count - 1];
        let front = addresses.take(count - 1);
        if front.contains(last) {
            let at = choose|at: int| 0 <= at < front.len() && front[at] == last;
            assert(addresses[at] == addresses[count - 1]);
        }
    }
}

/// A server on any addresses that differ and have ports is made, with a cookie secret at an
/// absolute path.
pub proof fn law_server_on_distinct_addresses_is_made(
    addresses: Vec<SocketAddress>,
    policy: CarrierConfig,
    settings: ServerTls,
    plain: Result<ServerConfig, ConfigError>,
    secured: Result<ServerConfig, ConfigError>,
)
    requires
        addresses@.len() > 0,
        addresses@.no_duplicates(),
        forall|at: int| 0 <= at < addresses@.len() ==> (#[trigger] addresses@[at]).port != 0,
        policy@.cookie_secret_file.absolute,
        settings@.server_cert.absolute && settings@.server_key.absolute && settings@.client_ca.absolute,
        call_ensures(ServerConfig::insecure, (addresses, policy), plain),
        call_ensures(ServerConfig::with_tls, (addresses, settings, policy), secured),
    ensures
        plain is Ok,
        secured matches Ok(config) && config@.tls == Some(settings@) && !config@.allow_insecure,
{
    lemma_addresses_accepted(addresses@, addresses@.len() as int);
    transport::law_default_transport_is_accepted();
}

/// A client on any usable path, or on any two usable paths that differ, is made, with a cookie
/// secret at an absolute path.
pub proof fn law_client_on_usable_paths_is_made(
    primary: PathCandidate,
    backup: PathCandidate,
    policy: CarrierConfig,
    settings: ClientTls,
    single: Result<Multipath, ConfigError>,
    double: Result<Multipath, ConfigError>,
    plain: Result<ClientConfig, ConfigError>,
    secured: Result<ClientConfig, ConfigError>,
)
    requires
        usable(primary) && usable(backup),
        primary != backup,
        policy@.cookie_secret_file.absolute,
        settings@.server_name@.len() > 0,
        settings@.ca_cert.absolute && settings@.client_cert.absolute && settings@.client_key.absolute,
        call_ensures(Multipath::single, (primary,), single),
        call_ensures(Multipath::failover, (primary, backup), double),
        single is Ok ==> call_ensures(ClientConfig::insecure, (single->Ok_0, policy), plain),
        double is Ok ==> call_ensures(ClientConfig::with_tls, (settings, double->Ok_0, policy), secured),
    ensures
        single is Ok,
        double is Ok,
        plain is Ok,
        secured is Ok,
{
    reveal_with_fuel(crate::config::multipath::candidates_refusal, 3);
    let one = seq![primary];
    assert(one.skip(1).len() == 0);
    let two = seq![primary, backup];
    assert(two.skip(1) =~= seq![backup]);
    assert(two.skip(1).skip(1).len() == 0);
    lemma_usable(primary);
    lemma_usable(backup);
    transport::law_default_transport_is_accepted();
}

/// Whether a path leads from one host to one host of its family, at a port.
pub open spec fn usable(path: PathCandidate) -> bool {
    &&& (path.local() is V4 <==> path.server().ip is V4)
    &&& !several_hosts(path.local())
    &&& !several_hosts(path.server().ip)
    &&& path.server().port != 0
}

proof fn lemma_one_host(ip: IpAddress)
    ensures
        crate::config::multipath::reachable(ip) == !several_hosts(ip),
{
    match ip {
        IpAddress::V4(value) => {
            assert((value / 0x1000_0000 == 14) == (0xe000_0000 <= value <= 0xefff_ffff));
        },
        IpAddress::V6(value) => {
            assert((value / 0x100_0000_0000_0000_0000_0000_0000_0000 == 255) == (value
                >= 0xff00_0000_0000_0000_0000_0000_0000_0000));
        },
    }
}

proof fn lemma_usable(path: PathCandidate)
    ensures
        crate::config::multipath::candidate_refusal(path.local(), path.server()) is None <==> usable(path),
{
    lemma_one_host(path.local());
    lemma_one_host(path.server().ip);
}

/// Accepted transport controls replace those of an endpoint, and change nothing else of it.
pub proof fn law_transport_of_an_endpoint_is_replaced(
    client: ClientConfig,
    server: ServerConfig,
    controls: QuicpTransportConfig,
    with_controls: Result<ClientConfig, ConfigError>,
    served: Result<ServerConfig, ConfigError>,
)
    requires
        call_ensures(ClientConfig::with_transport, (client, controls), with_controls),
        call_ensures(ServerConfig::with_transport, (server, controls), served),
    ensures
        with_controls matches Ok(config) ==> config@.transport == controls && config@.tls == client@.tls
            && config@.multipath == client@.multipath && config@.carrier == client@.carrier,
        served matches Ok(config) ==> config@.transport == controls && config@.tls == server@.tls
            && config@.listen_addrs
            == server@.listen_addrs && config@.carrier == server@.carrier,
        endpoint::client_refusal(client@) is None && transport::transport_refusal(controls) is None
            ==> with_controls is Ok,
        endpoint::server_refusal(server@) is None && transport::transport_refusal(controls) is None ==> served is Ok,
{
}

proof fn lemma_plain_name(name: Seq<char>, part: Seq<char>, rest: Seq<char>)
    requires
        forall|at: int| 0 <= at < name.len() ==> #[trigger] name[at] != '/',
    ensures
        trust::names_in(name + rest, part) == trust::names_in(rest, part + name),
    decreases name.len(),
{
    if name.len() == 0 {
        assert(name + rest =~= rest);
        assert(part + name =~= part);
    } else {
        let next = name.skip(1);
        assert forall|at: int| 0 <= at < next.len() implies #[trigger] next[at] != '/' by {
            assert(next[at] == name[at + 1]);
        }
        lemma_plain_name(next, part.push(name[0]), rest);
        assert((name + rest).skip(1) =~= next + rest);
        assert((name + rest)[0] == name[0]);
        assert(part.push(name[0]) + next =~= part + name);
    }
}

/// A path is walked name by name: a slash parts names, empty names and single dots are passed
/// over, and a name of two dots is refused wherever it stands.
pub proof fn law_paths_are_walked_by_their_names(name: Seq<char>, rest: Seq<char>)
    requires
        forall|at: int| 0 <= at < name.len() ==> #[trigger] name[at] != '/',
    ensures
        name == seq!['.', '.'] ==> trust::names_in(name + (seq!['/'] + rest), Seq::empty()) is None && trust::names_in(
            name,
            Seq::empty(),
        ) is None,
        name.len() == 0 || name == seq!['.']
            ==> trust::names_in(name + (seq!['/'] + rest), Seq::empty()) == trust::names_in(
            rest,
            Seq::empty(),
        ),
        name.len() > 0 && name != seq!['.'] && name != seq!['.', '.'] ==> {
            &&& trust::names_in(name, Seq::empty()) == Some(seq![name])
            &&& match trust::names_in(rest, Seq::empty()) {
                Some(others) => trust::names_in(name + (seq!['/'] + rest), Seq::empty()) == Some(seq![name] + others),
                None => trust::names_in(name + (seq!['/'] + rest), Seq::empty()) is None,
            }
        },
{
    let tail = seq!['/'] + rest;
    lemma_plain_name(name, Seq::empty(), tail);
    lemma_plain_name(name, Seq::empty(), Seq::empty());
    assert(Seq::<char>::empty() + name =~= name);
    assert(name + Seq::<char>::empty() =~= name);
    assert(tail.skip(1) =~= rest);
    assert(tail[0] == '/');
    if name.len() == 0 || name == seq!['.'] {
        if let Some(others) = trust::names_in(rest, Seq::empty()) {
            assert(Seq::<Seq<char>>::empty() + others =~= others);
        }
    }
}

/// The path of a file is taken apart into those names, and is refused where it has none or
/// would leave the directory that it starts in.
pub proof fn law_secure_names_are_those_of_the_path(
    text: &[char],
    result: Result<Vec<(usize, usize)>, ConfigError>,
)
    requires
        call_ensures(trust::secure_names, (text,), result),
    ensures
        result is Ok <==> (trust::names_in(text@, Seq::empty()) matches Some(names) && names.len() > 0),
        result matches Ok(places) ==> trust::names_in(text@, Seq::empty()) == Some(trust::at_places(text@, places@)),
        result matches Err(error) ==> error == ConfigError::SecureOpen,
{
}

/// The owner of a file is the user or the superuser, and nobody else may write it.
pub proof fn law_owner_and_mode_of_a_directory(
    path: FilePath,
    owner: u32,
    current: u32,
    mode: u32,
    result: Result<(), ConfigError>,
)
    requires
        call_ensures(trust::verify_owner_and_mode, (&path, owner, current, mode), result),
    ensures
        result is Ok <==> (owner == 0 || owner == current) && mode / 16 % 2 == 0 && mode / 2 % 2 == 0,
{
    assert((mode & 0o022 == 0) == (mode / 16 % 2 == 0 && mode / 2 % 2 == 0)) by (bit_vector);
}

/// A configuration that was read is accepted as what it says: a client with its paths, a server
/// with its addresses, each with its own security, carrier and transport.
pub proof fn law_read_configuration_is_kept(
    given: endpoint::RawConfig,
    result: Result<endpoint::Config, ConfigError>,
)
    requires
        call_ensures(endpoint::RawConfig::validate, (given,), result),
    ensures
        result matches Ok(endpoint::Config::Client(config)) ==> (given matches endpoint::RawConfig::Client {
            tls,
            allow_insecure,
            multipath,
            carrier,
            transport,
        } && config@.allow_insecure == allow_insecure && config@.multipath == multipath@ && config@.carrier == carrier@
            && config@.transport == transport && (config@.tls is Some <==> tls is Some)),
        result matches Ok(endpoint::Config::Server(config)) ==> (given matches endpoint::RawConfig::Server {
            listen_addrs,
            tls,
            allow_insecure,
            carrier,
            transport,
        } && config@.allow_insecure == allow_insecure && config@.listen_addrs == listen_addrs@ && config@.carrier
            == carrier@ && config@.transport == transport && (config@.tls is Some <==> tls is Some)),
{
}

/// The cookie that a configuration makes for a path is one that verifies with its secret.
pub proof fn law_configured_cookie_verifies(
    policy: CarrierConfig,
    secret: &[u8],
    given: crate::faketcp::tuple::FourTuple,
    epoch: u64,
    mode: crate::faketcp::tuple::SynDataMode,
    presented: &[u8],
    valid: bool,
)
    requires
        secret@.len() <= crate::crypto::MAX_DIGEST_INPUT,
        call_ensures(CarrierConfig::syn_cookie_mode, (&policy, secret, given, epoch), mode),
        call_ensures(crate::faketcp::cookie::verify_syn_cookie, (secret, given, epoch, presented), valid),
    ensures
        mode matches crate::faketcp::tuple::SynDataMode::Cookie(bytes) && (valid <==> presented@ == bytes@),
{
}

} // verus!
