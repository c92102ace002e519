//! Configuration: what is accepted, what is refused, and which files are trusted.
use quicp::address::{IpAddress, SocketAddress};
use quicp::config::carrier::CarrierConfig;
use quicp::config::duration::Duration;
use quicp::config::endpoint::{validate_security_profile, ClientConfig, Config, RawConfig, ServerConfig};
use quicp::config::error::ConfigError;
use quicp::config::mtu::{MssMode, MtuConfig, PmtuMode};
use quicp::config::multipath::{Multipath, MultipathMode, PathCandidate};
use quicp::config::path::FilePath;
use quicp::config::tls::{ClientTls, ServerTls};
use quicp::config::transport::{CongestionControl, QuicpTransportConfig, RecoveryConfig, RecoveryMode};
use quicp::config::trust::{
    accept_contents, is_windows_system_sid, secure_names, verify_file, verify_owner_and_acl, AccessEntry, FileFacts,
    FileSecurity, TrustedFileMode,
};
use quicp::faketcp::tuple::{FourTuple, SynDataMode};

fn path(text: &str) -> FilePath {
    FilePath::unix(String::from(text))
}

fn v4(ip: u32, port: u16) -> SocketAddress {
    SocketAddress { ip: IpAddress::V4(ip), port, flow_info: 0, scope_id: 0 }
}

fn candidate(last: u32) -> PathCandidate {
    PathCandidate::new(IpAddress::V4(0x0a00_0000 + last), v4(0xc000_0201, 443)).unwrap()
}

fn file(mode: u32) -> FileFacts {
    FileFacts { regular: true, owner: 1000, mode, length: 6 }
}

#[test]
fn private_material_must_be_owner_only() {
    let key = path("/home/user/client.key");
    assert!(matches!(
        verify_file(&key, file(0o100_640), 1000, 1024, TrustedFileMode::OwnerOnly),
        Err(ConfigError::InsecurePermissions { .. })
    ));
    assert!(verify_file(&key, file(0o100_600), 1000, 1024, TrustedFileMode::OwnerOnly).is_ok());
    assert_eq!(accept_contents(&key, b"secret".to_vec(), 1024).unwrap(), b"secret");
}

#[test]
fn files_are_refused_for_what_they_are() {
    let config = path("/etc/quicp/config.toml");
    let shared = TrustedFileMode::SharedReadable;
    assert!(matches!(
        verify_file(&config, FileFacts { regular: false, ..file(0o100_600) }, 1000, 1024, shared),
        Err(ConfigError::NotRegularFile(_))
    ));
    assert!(matches!(
        verify_file(&config, FileFacts { length: 1025, ..file(0o100_600) }, 1000, 1024, shared),
        Err(ConfigError::FileTooLarge(_))
    ));
    assert!(matches!(
        verify_file(&config, FileFacts { owner: 7, ..file(0o100_600) }, 1000, 1024, shared),
        Err(ConfigError::WrongOwner { owner: 7, .. })
    ));
    assert!(verify_file(&config, file(0o100_644), 1000, 1024, shared).is_ok());
    assert!(matches!(
        verify_file(&config, file(0o100_664), 1000, 1024, shared),
        Err(ConfigError::InsecurePermissions { .. })
    ));
    assert!(matches!(accept_contents(&config, vec![0; 5], 4), Err(ConfigError::FileTooLarge(_))));
}

const USER: [u8; 12] = [1, 1, 0, 0, 0, 0, 0, 5, 21, 0, 0, 0];
const SYSTEM: [u8; 12] = [1, 1, 0, 0, 0, 0, 0, 5, 18, 0, 0, 0];
const EVERYONE: [u8; 12] = [1, 1, 0, 0, 0, 0, 0, 1, 0, 0, 0, 0];

fn entry(sid: &[u8], mask: u32) -> AccessEntry {
    AccessEntry { size: 8 + sid.len() as u16, flags: 0, kind: 0, mask, sid: sid.to_vec() }
}

fn security(extra: Option<AccessEntry>) -> FileSecurity {
    let mut entries = vec![entry(&USER, 0x001f_01ff), entry(&SYSTEM, 0x001f_01ff)];
    entries.extend(extra);
    FileSecurity { owner: USER.to_vec(), user: USER.to_vec(), entries: Some(entries) }
}

const READ: u32 = 0x0012_0089;
const MODIFY: u32 = 0x0013_01bf;

#[test]
fn shared_config_allows_untrusted_read_but_owner_only_does_not() {
    let config = path("/config.toml");
    let readable = security(Some(entry(&EVERYONE, READ)));
    assert!(verify_owner_and_acl(&config, Some(&readable), TrustedFileMode::SharedReadable).is_ok());
    assert!(matches!(
        verify_owner_and_acl(&config, Some(&readable), TrustedFileMode::OwnerOnly),
        Err(ConfigError::InsecureAcl(_))
    ));
}

#[test]
fn shared_config_rejects_untrusted_write_access() {
    let config = path("/config.toml");
    let writable = security(Some(entry(&EVERYONE, MODIFY)));
    assert!(matches!(
        verify_owner_and_acl(&config, Some(&writable), TrustedFileMode::SharedReadable),
        Err(ConfigError::InsecureAcl(_))
    ));
}

#[test]
fn owner_only_file_loading_accepts_a_user_owned_acl() {
    let secret = path("/secret");
    let owned = security(None);
    assert!(verify_owner_and_acl(&secret, Some(&owned), TrustedFileMode::OwnerOnly).is_ok());
    assert_eq!(accept_contents(&secret, b"secret".to_vec(), 1024).unwrap(), b"secret");
    assert!(verify_owner_and_acl(&secret, None, TrustedFileMode::OwnerOnly).is_err());
    let open = FileSecurity { entries: None, ..owned };
    assert!(verify_owner_and_acl(&secret, Some(&open), TrustedFileMode::OwnerOnly).is_err());
}

#[test]
fn system_identifiers_are_recognized() {
    assert!(is_windows_system_sid(&SYSTEM));
    assert!(!is_windows_system_sid(&USER));
    assert!(!is_windows_system_sid(&EVERYONE));
    assert!(!is_windows_system_sid(&[]));
}

fn letters(text: &str) -> Vec<char> {
    text.chars().collect()
}

#[test]
fn paths_are_opened_name_by_name() {
    assert_eq!(secure_names(&letters("/etc/quicp")).unwrap(), vec![(1, 4), (5, 10)]);
    assert!(matches!(secure_names(&letters("/etc/../quicp")), Err(ConfigError::SecureOpen)));
    assert!(matches!(secure_names(&letters("/")), Err(ConfigError::SecureOpen)));
}

#[test]
fn default_transport_is_accepted() {
    let config = QuicpTransportConfig::default();
    assert!(config.validate().is_ok());
    assert_eq!(config.connection_send_window, 8 * 1024 * 1024);
    assert_eq!(config.idle_timeout, Duration::from_seconds(60));
    assert_eq!(config.recovery, RecoveryConfig::default());
    assert_eq!(config.recovery.max_ack_ranges, 16);
    assert_eq!(config.mtu, MtuConfig::default());
    let changed = config
        .with_nodelay(false)
        .with_congestion_control(CongestionControl::Bbr3)
        .with_recovery(RecoveryConfig { mode: RecoveryMode::ReliableOnly, ..RecoveryConfig::default() })
        .with_mtu(MtuConfig { outer_ip_mtu: 9000, ..MtuConfig::default() });
    assert!(!changed.default_nodelay);
    assert_eq!(changed.congestion_control, CongestionControl::Bbr3);
    assert_eq!(changed.recovery.mode, RecoveryMode::ReliableOnly);
    assert_eq!(changed.mtu.outer_ip_mtu, 9000);
}

#[test]
fn unsound_transports_are_refused() {
    let sound = QuicpTransportConfig::default;
    assert!(matches!(
        QuicpTransportConfig { connection_send_window: 0, ..sound() }.validate(),
        Err(ConfigError::InvalidTransportWindow(0))
    ));
    assert!(matches!(
        QuicpTransportConfig { keep_alive_interval: Duration::from_seconds(60), ..sound() }.validate(),
        Err(ConfigError::KeepAliveNotShorter { .. })
    ));
    assert!(matches!(
        QuicpTransportConfig { path_idle_timeout: Duration::from_seconds(61), ..sound() }.validate(),
        Err(ConfigError::PathIdleNotShorter { .. })
    ));
    assert!(matches!(
        QuicpTransportConfig { flow_write_buffer_bytes: u32::MAX, ..sound() }.validate(),
        Err(ConfigError::InvalidTransportBuffer { .. })
    ));
    assert!(matches!(
        QuicpTransportConfig { max_active_connections_per_peer: 129, ..sound() }.validate(),
        Err(ConfigError::PerPeerLimitExceedsGlobal { per_peer: 129, global: 128 })
    ));
    assert!(matches!(
        sound().with_recovery(RecoveryConfig { max_repair_span: 0, ..RecoveryConfig::default() }).validate(),
        Err(ConfigError::InvalidRecoveryLimit { .. })
    ));
}

#[test]
fn mtu_settings_are_checked_and_bound_the_payload() {
    let sound = MtuConfig::default();
    assert!(sound.validate().is_ok());
    assert!(matches!(
        MtuConfig { initial_quic_payload: 1100, ..sound }.validate(),
        Err(ConfigError::InvalidPayload { .. })
    ));
    assert!(matches!(
        MtuConfig { min_quic_payload: 1300, ..sound }.validate(),
        Err(ConfigError::MtuOrdering { .. })
    ));
    assert!(matches!(
        MtuConfig { mss: MssMode::Fixed(0), ..sound }.validate(),
        Err(ConfigError::InvalidMss { mss: 0, .. })
    ));
    assert!(matches!(
        MtuConfig { pmtu_minimum_change: 0, ..sound }.validate(),
        Err(ConfigError::ZeroPmtuChange)
    ));
    let v4_payload = sound.safe_payload_for_family(true).unwrap();
    let v6_payload = sound.safe_payload_for_family(false).unwrap();
    assert_eq!(v4_payload - v6_payload, 20);
    let ceiling = sound.static_payload_ceiling(Some(1400), &[true, false]).unwrap();
    assert!(ceiling <= v6_payload);
    assert_eq!(MtuConfig { pmtu: PmtuMode::Disabled, ..sound }.pmtu, PmtuMode::Disabled);
}

#[test]
fn paths_have_to_be_distinct_and_usable() {
    let single = Multipath::single(candidate(1)).unwrap();
    assert_eq!(single.mode(), MultipathMode::Off);
    assert_eq!(single.candidates().len(), 1);
    assert_eq!(Multipath::failover(candidate(1), candidate(2)).unwrap().mode().path_limit(), 2);
    assert!(matches!(
        Multipath::failover(candidate(1), candidate(1)),
        Err(ConfigError::DuplicateCandidateTuple { .. })
    ));
    assert!(matches!(
        PathCandidate::new(IpAddress::V6(1), v4(1, 1)),
        Err(ConfigError::AddressFamilyMismatch { .. })
    ));
    assert!(matches!(
        PathCandidate::new(IpAddress::V4(0), v4(1, 1)),
        Err(ConfigError::UnusableCandidateAddress { .. })
    ));
    assert!(matches!(PathCandidate::new(IpAddress::V4(1), v4(1, 0)), Err(ConfigError::ZeroPort)));
}

#[test]
fn tls_settings_name_a_server_and_absolute_files() {
    let tls = ClientTls::new(String::from("host"), path("/ca"), path("/cert"), path("/key")).unwrap();
    assert_eq!(tls.server_name(), "host");
    assert_eq!(tls.ca_cert().text, "/ca");
    assert_eq!(tls.client_cert().text, "/cert");
    assert_eq!(tls.client_key().text, "/key");
    assert!(matches!(
        ClientTls::new(String::new(), path("/ca"), path("/cert"), path("/key")),
        Err(ConfigError::EmptyTlsServerName)
    ));
    assert!(matches!(
        ServerTls::new(path("cert"), path("/key"), path("/ca")),
        Err(ConfigError::TlsPathNotAbsolute(_))
    ));
    let server = ServerTls::new(path("/cert"), path("/key"), path("/ca")).unwrap();
    assert_eq!(server.server_cert().text, "/cert");
    assert_eq!(server.server_key().text, "/key");
    assert_eq!(server.client_ca().text, "/ca");
}

#[test]
fn security_is_opted_out_of_explicitly() {
    assert!(validate_security_profile(true, false, true).is_ok());
    assert!(validate_security_profile(false, true, true).is_ok());
    assert!(matches!(
        validate_security_profile(false, false, true),
        Err(ConfigError::InsecureProfileRequiresOptIn)
    ));
    assert!(matches!(validate_security_profile(true, true, true), Err(ConfigError::TlsWithInsecureOptIn)));
    assert!(matches!(validate_security_profile(true, false, false), Err(ConfigError::TlsFeatureDisabled)));
}

#[test]
fn endpoints_are_validated_as_a_whole() {
    let client = ClientConfig::insecure(Multipath::single(candidate(1)).unwrap(), CarrierConfig::default()).unwrap();
    assert!(client.allow_insecure() && client.tls().is_none());
    assert_eq!(client.carrier().cookie_secret_file().text, "/etc/quicp/carrier-cookie.secret");
    assert!(matches!(
        client.with_transport(QuicpTransportConfig { max_ack_delay: Duration::from_seconds(0), ..Default::default() }),
        Err(ConfigError::ZeroTransportDuration)
    ));
    assert!(matches!(
        ServerConfig::insecure(Vec::new(), CarrierConfig::default()),
        Err(ConfigError::EmptyListenAllowlist)
    ));
    let twice = vec![v4(1, 443), v4(1, 443)];
    assert!(matches!(
        ServerConfig::insecure(twice, CarrierConfig::default()),
        Err(ConfigError::DuplicateListenAddress(_))
    ));
    let read = RawConfig::Server {
        listen_addrs: vec![v4(1, 443)],
        tls: None,
        allow_insecure: true,
        carrier: CarrierConfig::from_raw(path("relative"), false),
        transport: QuicpTransportConfig::default(),
    };
    assert!(matches!(read.validate(), Err(ConfigError::CookieSecretPathNotAbsolute(_))));
    let read = RawConfig::Client {
        tls: None,
        allow_insecure: true,
        multipath: Multipath::from_raw(MultipathMode::Failover, vec![candidate(1)]),
        carrier: CarrierConfig::default(),
        transport: QuicpTransportConfig::default(),
    };
    assert!(matches!(read.validate(), Err(ConfigError::CandidateCount { expected: 2, actual: 1, .. })));
    let read = RawConfig::Server {
        listen_addrs: vec![v4(1, 443)],
        tls: None,
        allow_insecure: true,
        carrier: CarrierConfig::default(),
        transport: QuicpTransportConfig::default(),
    };
    let Ok(Config::Server(server)) = read.validate() else {
        panic!("a sound server was refused");
    };
    assert_eq!(server.listen_addrs(), [v4(1, 443)]);
}

#[test]
fn carrier_policy_reads_a_secret_and_binds_cookies_to_it() {
    let carrier = CarrierConfig::new(path("/secret")).unwrap().with_packet_socket(true);
    assert!(carrier.packet_socket());
    assert!(matches!(CarrierConfig::new(path("secret")), Err(ConfigError::CookieSecretPathNotAbsolute(_))));
    assert!(matches!(carrier.load_cookie_secret(Vec::new()), Err(ConfigError::CookieSecretEmpty(_))));
    let secret = carrier.load_cookie_secret(b"material".to_vec()).unwrap();
    let tuple = FourTuple::new(v4(0x7f00_0001, 1), v4(0x7f00_0001, 2));
    let SynDataMode::Cookie(first) = carrier.syn_cookie_mode(&secret, tuple, 1) else {
        panic!("no cookie");
    };
    let SynDataMode::Cookie(second) = carrier.syn_cookie_mode(&secret, tuple, 2) else {
        panic!("no cookie");
    };
    assert_ne!(first, second);
}

#[test]
fn durations_count_in_milliseconds() {
    let duration = Duration::from_milliseconds(1_500);
    assert_eq!(duration, Duration { seconds: 1, nanoseconds: 500_000_000 });
    assert_eq!(duration.as_millis(), 1_500);
    assert!(Duration::from_seconds(1).is_shorter(&duration));
    assert!(Duration::from_seconds(0).is_zero());
}
