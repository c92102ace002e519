//! The foreign interface: engines, opens, requests, flows, and the caller's memory.
use quicp::config::path::FilePath;
use quicp::ffi::accept::{DecisionStep, Offer, RequestStep};
use quicp::ffi::engine::{
    check_close, check_create, check_create_tls, check_input, check_timer_outputs, report_close, report_flow,
    tell_token, EndpointPlan, FfiEngine, FlowPoll,
};
use quicp::ffi::memory::{disjoint, valid_engine_output, valid_transfer, Buffer, Pointer, Region, RequestOutputs};
use quicp::ffi::open::{check_open, check_replay_open, OpenInput, OpenStep, ReplayInput};
use quicp::ffi::state::ConnectionState;
use quicp::ffi::types::{
    ffi_security, ffi_string, readable_bytes, FfiBytes, FfiEngineConfig, FfiPathConfig, FfiRecoveryMode,
    FfiRecoverySnapshot, FfiRole, FfiSecurity, FfiSocketAddress, FfiStatus, ABI_VERSION,
};
use quicp::host_runtime::{DriveStep, HostRuntimeError, TaskOutcome};

type Engine = FfiEngine<&'static str, u32>;

fn socket(port: u16) -> FfiSocketAddress {
    let mut address = [0; 16];
    address[..4].copy_from_slice(&[127, 0, 0, 1]);
    FfiSocketAddress { family: 4, port, reserved: 0, address }
}

fn config(role: FfiRole, local: u16, peer: u16) -> FfiEngineConfig {
    FfiEngineConfig {
        abi_version: ABI_VERSION,
        role: role.code(),
        path_count: 1,
        paths: [FfiPathConfig { local: socket(local), peer: socket(peer) }, FfiPathConfig::default()],
        packet_capacity: 8,
        mtu: 1500,
        recovery_mode: FfiRecoveryMode::Adaptive.code(),
    }
}

fn engine(role: FfiRole) -> Engine {
    Engine::new(&config(role, 41_100, 41_101), FfiSecurity::Insecure).unwrap().0
}

fn drive(engine: &mut Engine, outcome: TaskOutcome) -> Result<usize, HostRuntimeError> {
    let elapsed = quicp::config::duration::Duration::from_seconds(0);
    engine.runtime.begin_drive(elapsed, true, 32)?;
    loop {
        match engine.runtime.next_task() {
            DriveStep::Poll(task) => engine.runtime.after_poll(task, outcome)?,
            DriveStep::Finished { processed, .. } => return Ok(processed),
        }
    }
}

#[test]
fn task_panic_latches_the_engine_failed() {
    let mut engine = engine(FfiRole::Client);
    engine.runtime.spawn().unwrap();
    let outcome = drive(&mut engine, TaskOutcome::Panicked);
    assert_eq!(engine.after_drive(outcome).status, FfiStatus::Failed);
    assert_eq!(engine.connection_state(false), FfiStatus::Failed);
    assert_eq!(check_close(pointer(0x1000), pointer(0x2000)), None);
}

#[test]
fn concurrent_ffi_drive_is_rejected_without_poisoning_the_engine() {
    let mut engine = Engine::new(&config(FfiRole::Client, 41_110, 41_111), FfiSecurity::Insecure).unwrap().0;
    engine.runtime.spawn().unwrap();
    let elapsed = quicp::config::duration::Duration::from_seconds(0);
    engine.runtime.begin_drive(elapsed, true, 256).unwrap();
    let DriveStep::Poll(task) = engine.runtime.next_task() else {
        panic!("no task is ready");
    };
    let overlapping = engine.runtime.begin_drive(elapsed, true, 1).map(|due| due.len());
    assert_eq!(engine.after_drive(overlapping).status, FfiStatus::InvalidArgument);
    engine.runtime.after_poll(task, TaskOutcome::Pending).unwrap();
    assert_eq!(engine.runtime.next_task(), DriveStep::Finished { processed: 1, notify: false });
    assert_eq!(engine.after_drive(Ok(1)).status, FfiStatus::Completed);
    let outcome = drive(&mut engine, TaskOutcome::Pending);
    assert_eq!(engine.after_drive(outcome).status, FfiStatus::Completed);
    assert_eq!(engine.connection_state(false), FfiStatus::WouldBlock);
}

#[test]
fn engines_refuse_values_outside_their_bounds() {
    let sound = config(FfiRole::Client, 1, 2);
    let (made, plan) = Engine::new(&sound, FfiSecurity::Insecure).unwrap();
    assert_eq!(made.sockets.len(), 1);
    assert!(matches!(plan, EndpointPlan::Client(client) if client.allow_insecure()));
    let refused = [
        FfiEngineConfig { abi_version: 2, ..sound },
        FfiEngineConfig { role: 3, ..sound },
        FfiEngineConfig { recovery_mode: 0, ..sound },
        FfiEngineConfig { path_count: 0, ..sound },
        FfiEngineConfig { path_count: 3, ..sound },
        FfiEngineConfig { path_count: 2, ..sound },
        FfiEngineConfig { packet_capacity: 0, ..sound },
        FfiEngineConfig { packet_capacity: 4097, ..sound },
        FfiEngineConfig { mtu: 1199, ..sound },
        FfiEngineConfig { mtu: 65_528, ..sound },
        FfiEngineConfig { packet_capacity: 4096, mtu: 65_527, ..sound },
        config(FfiRole::Client, 0, 2),
    ];
    for values in refused {
        assert_eq!(Engine::new(&values, FfiSecurity::Insecure).unwrap_err(), FfiStatus::InvalidArgument);
    }
    let (made, plan) = Engine::new(&config(FfiRole::Server, 1, 2), FfiSecurity::Insecure).unwrap();
    assert_eq!(made.role, FfiRole::Server);
    assert!(matches!(plan, EndpointPlan::Server(server) if server.listen_addrs().len() == 1));
}

#[test]
fn addresses_need_a_family_a_port_and_a_zero_tail() {
    assert!(socket(1).get().is_some());
    assert!(socket(0).get().is_none());
    assert!(FfiSocketAddress { reserved: 1, ..socket(1) }.get().is_none());
    assert!(FfiSocketAddress { family: 5, ..socket(1) }.get().is_none());
    let mut tail = socket(1);
    tail.address[15] = 1;
    assert!(tail.get().is_none());
    assert!(FfiSocketAddress { family: 6, ..tail }.get().is_some());
    assert!(FfiSocketAddress::default().get().is_none());
}

#[test]
fn security_has_to_be_for_the_role() {
    let path = |text: &str| FilePath::unix(String::from(text));
    let tls = |role: u32, name: &str| ffi_security(role, String::from(name), path("/ca"), path("/cert"), path("/key"));
    assert!(matches!(tls(1, "host"), Ok(FfiSecurity::ClientTls(_))));
    assert!(matches!(tls(1, ""), Err(FfiStatus::InvalidArgument)));
    assert!(matches!(tls(2, "host"), Err(FfiStatus::InvalidArgument)));
    assert!(matches!(tls(3, "host"), Err(FfiStatus::InvalidArgument)));
    let client = config(FfiRole::Client, 1, 2);
    let server = config(FfiRole::Server, 1, 2);
    assert!(Engine::new(&client, tls(1, "host").unwrap()).is_ok());
    assert!(Engine::new(&server, tls(2, "").unwrap()).is_ok());
    assert_eq!(Engine::new(&server, tls(1, "host").unwrap()).unwrap_err(), FfiStatus::InvalidArgument);
    assert_eq!(Engine::new(&client, tls(2, "").unwrap()).unwrap_err(), FfiStatus::InvalidArgument);
}

#[test]
fn strings_are_bounded_utf8() {
    let value = |length: u32| FfiBytes { data: 0x1000, length };
    assert_eq!(ffi_string(value(3), b"abc", false).unwrap(), "abc");
    assert_eq!(ffi_string(value(3), "\u{20ac}".as_bytes(), false).unwrap(), "\u{20ac}");
    assert_eq!(ffi_string(value(2), &[0xc0, 0x80], false), Err(FfiStatus::InvalidArgument));
    assert_eq!(ffi_string(value(0), b"", true).unwrap(), "");
    assert_eq!(ffi_string(value(0), b"", false), Err(FfiStatus::InvalidArgument));
    assert_eq!(ffi_string(FfiBytes { data: 0, length: 3 }, b"", true), Err(FfiStatus::InvalidArgument));
    assert_eq!(ffi_string(value(4097), b"", true), Err(FfiStatus::InvalidArgument));
    assert_eq!(readable_bytes(value(4096)), 4096);
    assert_eq!(readable_bytes(value(4097)), 0);
}

#[test]
fn one_open_is_polled_to_its_end() {
    let mut client = engine(FfiRole::Client);
    let input = OpenInput { host: b"example", port: 443, replay: None };
    let mut poll = |engine: &mut Engine, input: OpenInput, closed: bool| {
        let canonical = Some(String::from("example"));
        engine.open.poll_open(engine.role, engine.connection, input, closed, canonical, true)
    };
    assert!(matches!(poll(&mut client, input, false), OpenStep::Answer(FfiStatus::NotReady)));
    client.finish_connect(true);
    assert!(matches!(poll(&mut client, input, true), OpenStep::Answer(FfiStatus::Failed)));
    let OpenStep::Begin(operation) = poll(&mut client, input, false) else {
        panic!("nothing was started");
    };
    assert_eq!((operation.host.as_str(), operation.port), ("example", 443));
    assert!(matches!(poll(&mut client, input, false), OpenStep::Answer(FfiStatus::WouldBlock)));
    let other = OpenInput { port: 444, ..input };
    assert!(matches!(poll(&mut client, other, false), OpenStep::Answer(FfiStatus::InvalidArgument)));
    let replayed = OpenInput { replay: Some(ReplayInput { token: b"t", nonce: 1, initial: b"i" }), ..input };
    assert!(matches!(poll(&mut client, replayed, false), OpenStep::Answer(FfiStatus::InvalidArgument)));
    client.open.finish_open(&mut client.flows, operation, Some((9, "flow")));
    assert!(matches!(poll(&mut client, input, false), OpenStep::Opened(9)));
    assert_eq!(client.flows.flow_mut(9), Some(&mut "flow"));

    let OpenStep::Begin(operation) = poll(&mut client, replayed, false) else {
        panic!("nothing was started");
    };
    assert_eq!(operation.replay.as_ref().unwrap().initial, &b"i"[..]);
    assert_eq!(client.open.open_not_started(operation), FfiStatus::Failed);
    assert!(matches!(poll(&mut client, replayed, false), OpenStep::Answer(FfiStatus::Failed)));
    let invalid = OpenInput { host: &[0xff], ..input };
    assert!(matches!(poll(&mut client, invalid, false), OpenStep::Answer(FfiStatus::InvalidArgument)));
}

#[test]
fn one_request_is_looked_at_and_decided_on() {
    let mut server = engine(FfiRole::Server);
    let (mut host, mut initial) = ([0u8; 8], [0u8; 4]);
    let poll = |engine: &mut Engine, replay: bool, host: &mut [u8], initial: &mut [u8]| {
        engine.accept.poll_flow_request(
            engine.role,
            engine.replay_admission,
            engine.connection,
            replay,
            false,
            host,
            initial,
        )
    };
    assert_eq!(poll(&mut server, false, &mut host, &mut initial), RequestStep::Answer(FfiStatus::NotReady));
    server.finish_connect(true);
    assert_eq!(poll(&mut server, true, &mut host, &mut initial), RequestStep::Answer(FfiStatus::InvalidArgument));
    assert_eq!(poll(&mut server, false, &mut host, &mut initial), RequestStep::Begin);
    assert_eq!(poll(&mut server, false, &mut host, &mut initial), RequestStep::Answer(FfiStatus::WouldBlock));
    let offer = Offer { host: b"example".to_vec(), port: 80, initial: b"hi".to_vec() };
    server.accept.finish_request(false, Some((5, offer, 77)));
    let RequestStep::Offered(small) = poll(&mut server, false, &mut host[..3], &mut initial) else {
        panic!("no request");
    };
    assert!(!small.copied);
    assert_eq!((small.request, small.host_length, small.port, small.initial_length), (5, 7, 80, 2));
    assert_eq!(host, [0; 8]);
    let RequestStep::Offered(report) = poll(&mut server, false, &mut host, &mut initial) else {
        panic!("no request");
    };
    assert!(report.copied);
    assert_eq!((&host[..7], &initial[..2]), (&b"example"[..], &b"hi"[..]));

    let role = server.role;
    assert!(matches!(
        server.accept.poll_flow_decision(role, 6, true),
        DecisionStep::Answer(FfiStatus::InvalidArgument)
    ));
    assert!(matches!(server.accept.poll_flow_decision(role, 5, true), DecisionStep::Begin(77)));
    assert!(matches!(
        server.accept.poll_flow_decision(role, 5, false),
        DecisionStep::Answer(FfiStatus::InvalidArgument)
    ));
    assert!(matches!(
        server.accept.poll_flow_decision(role, 5, true),
        DecisionStep::Answer(FfiStatus::WouldBlock)
    ));
    server.accept.finish_accept(&mut server.flows, 5, Some((3, "flow")));
    assert!(matches!(server.accept.poll_flow_decision(role, 5, true), DecisionStep::Accepted(3)));
    assert_eq!(server.flows.remove_flow(3), Some("flow"));
    assert_eq!(server.flows.remove_flow(3), None);

    assert_eq!(server.accept.request_not_started(false), FfiStatus::Failed);
    assert_eq!(poll(&mut server, false, &mut host, &mut initial), RequestStep::Answer(FfiStatus::Failed));
    let offer = Offer { host: Vec::new(), port: 1, initial: Vec::new() };
    server.accept.finish_request(false, Some((6, offer, 78)));
    assert!(matches!(server.accept.poll_flow_decision(role, 6, false), DecisionStep::Begin(78)));
    server.accept.finish_reject(6, true);
    assert!(matches!(
        server.accept.poll_flow_decision(role, 6, false),
        DecisionStep::Answer(FfiStatus::Completed)
    ));
    assert_eq!(server.accept.decision_not_started(8), FfiStatus::Failed);
    assert!(matches!(
        server.accept.poll_flow_decision(role, 8, true),
        DecisionStep::Answer(FfiStatus::Failed)
    ));
}

#[test]
fn flow_handles_are_generation_checked() {
    let mut server = engine(FfiRole::Server);
    server.flows.insert_flow(1, "first");
    server.flows.insert_flow(2, "second");
    assert_eq!(server.flows.remove_flow(1), Some("first"));
    server.flows.insert_flow(3, "third");
    assert_eq!(server.flows.slots.len(), 2);
    assert_eq!(server.flows.flow_mut(1), None);
    assert_eq!(server.flows.flow_mut(2), Some(&mut "second"));
    assert_eq!(server.flows.flow_mut(3), Some(&mut "third"));
    assert_eq!(report_flow(None), (FfiStatus::Closed, None));
    assert_eq!(report_flow(Some(FlowPoll::Ready(4))), (FfiStatus::Completed, Some(4)));
    assert_eq!(report_flow(Some(FlowPoll::Pending)), (FfiStatus::WouldBlock, None));
    assert_eq!(report_flow(Some(FlowPoll::Failed)), (FfiStatus::Failed, None));
    assert_eq!(report_close(None), FfiStatus::Closed);
    assert_eq!(report_close(Some(true)), FfiStatus::Completed);
    assert_eq!(report_close(Some(false)), FfiStatus::Failed);
}

#[test]
fn datagrams_pass_through_the_paths() {
    let mut client = engine(FfiRole::Client);
    let mut output = [0; 4];
    assert_eq!(client.ingress(1, b"x"), (FfiStatus::InvalidArgument, false));
    for _ in 0..8 {
        assert_eq!(client.ingress(0, b"data"), (FfiStatus::Completed, false));
    }
    assert_eq!(client.ingress(0, b"data"), (FfiStatus::WouldBlock, false));
    assert_eq!(client.egress(0, &mut output).status, FfiStatus::WouldBlock);
    let peer = client.sockets[0].peer_addr();
    client.sockets[0].send(peer, None, None, b"outgoing");
    let small = client.egress(0, &mut output);
    assert_eq!((small.status, small.length), (FfiStatus::BufferTooSmall, Some(8)));
    let mut output = [0; 8];
    let sent = client.egress(0, &mut output);
    assert_eq!((sent.status, sent.length), (FfiStatus::Completed, Some(8)));
    assert_eq!(&output, b"outgoing");
    assert_eq!(client.path_unavailable(0).0, FfiStatus::Completed);
    assert_eq!(client.path_unavailable(9).0, FfiStatus::InvalidArgument);
    assert_eq!(client.egress(0, &mut output).status, FfiStatus::Failed);
    assert_eq!(client.next_timer(), (0, 0));
    let timer = client.runtime.new_timer(quicp::config::duration::Duration { seconds: 2, nanoseconds: 5 });
    client.runtime.poll_timer(timer);
    assert_eq!(client.next_timer(), (1, 2_000_000_005));
}

#[test]
fn tokens_need_a_policy_and_a_connection() {
    let mut server = engine(FfiRole::Server);
    let (at, output, length) = (pointer(0x1000), Buffer { address: 0x9000, length: 16 }, pointer(0xa000));
    assert!(server.check_replay_secret(at, Buffer { address: 0x8000, length: 32 }));
    assert!(!server.check_replay_secret(at, Buffer { address: 0x8000, length: 31 }));
    assert_eq!(server.check_token(at, output, length), Some(FfiStatus::InvalidArgument));
    assert_eq!(server.configure_replay_admission(false), FfiStatus::InvalidArgument);
    assert_eq!(server.configure_replay_admission(true), FfiStatus::Completed);
    assert_eq!(server.configure_replay_admission(true), FfiStatus::InvalidArgument);
    assert_eq!(server.check_token(at, output, length), Some(FfiStatus::NotReady));
    server.connection = ConnectionState::Ready;
    assert_eq!(server.check_token(at, output, length), None);
    let mut room = [0; 4];
    assert_eq!(tell_token(b"token", &mut room), (FfiStatus::BufferTooSmall, Some(5)));
    let mut room = [0; 6];
    assert_eq!(tell_token(b"token", &mut room), (FfiStatus::Completed, Some(5)));
    assert_eq!(&room, b"token\0");
}

fn pointer(address: usize) -> Pointer {
    Pointer { address, size: 8, align: 8 }
}

#[test]
fn overlapping_memory_is_refused() {
    let region = |address: usize, count: usize| Region { address, size: 1, count };
    assert!(disjoint(region(10, 5), region(15, 5)));
    assert!(disjoint(region(15, 5), region(10, 5)));
    assert!(!disjoint(region(10, 6), region(15, 5)));
    assert!(!disjoint(region(usize::MAX - 1, 5), region(10, 1)));
    let at = pointer(0x1000);
    assert!(valid_engine_output(at, pointer(0x2000)));
    assert!(!valid_engine_output(at, pointer(0)));
    assert!(!valid_engine_output(at, pointer(0x2001)));
    assert!(!valid_engine_output(at, pointer(0x1000)));
    let buffer = |address: usize, length: usize| Buffer { address, length };
    assert!(valid_transfer(at, buffer(0x3000, 10), pointer(0x2000)));
    assert!(!valid_transfer(at, buffer(0x2000, 10), pointer(0x2008)));
    assert!(!valid_transfer(at, buffer(0x3000, 0), pointer(0x2000)));
    assert!(check_input(at, buffer(0x3000, 1)));
    assert!(!check_input(at, buffer(0, 1)));
    assert!(check_open(at, buffer(0x3000, 10), 253, pointer(0x2000)));
    assert!(!check_open(at, buffer(0x3000, 254), 253, pointer(0x2000)));
    let (token, initial) = (buffer(0x4000, 64), buffer(0x5000, 100));
    assert!(check_replay_open(at, token, 64, buffer(0x3000, 10), 253, initial, pointer(0x2000)));
    assert!(!check_replay_open(at, token, 63, buffer(0x3000, 10), 253, initial, pointer(0x2000)));
    assert!(!check_replay_open(at, token, 64, buffer(0x3000, 10), 253, buffer(0x5000, 32_769), pointer(0x2000)));
    assert!(check_timer_outputs(at, pointer(0x2000), pointer(0x2008)));
    assert!(!check_timer_outputs(at, pointer(0x2000), pointer(0x2000)));
    assert!(check_create(at, pointer(0x2000)));
    assert!(!check_create(at, pointer(0x1000)));
    assert!(check_create_tls(at, pointer(0x2000), pointer(0x3000)));
    assert!(!check_create_tls(at, pointer(0x2000), pointer(0x2000)));
    assert_eq!(check_close(pointer(0x2000), pointer(0)), Some(FfiStatus::Closed));
    assert_eq!(check_close(pointer(0x2000), pointer(0x2000)), Some(FfiStatus::InvalidArgument));
    assert_eq!(check_close(pointer(1), pointer(0)), Some(FfiStatus::InvalidArgument));

    let outputs = RequestOutputs {
        request: pointer(0x2000),
        host: buffer(0x3000, 253),
        host_length: pointer(0x2008),
        port: pointer(0x2010),
        initial: buffer(0x4000, 100),
        initial_length: pointer(0x2018),
    };
    assert!(outputs.check(at));
    assert!(RequestOutputs { initial: buffer(0, 0), ..outputs }.check(at));
    assert!(!RequestOutputs { initial: buffer(0, 1), ..outputs }.check(at));
    assert!(!RequestOutputs { initial: buffer(0x3050, 10), ..outputs }.check(at));
    assert!(!RequestOutputs { port: pointer(0x2008), ..outputs }.check(at));
    assert!(!RequestOutputs { host: buffer(0x2010, 4), ..outputs }.check(at));
}

#[test]
fn statuses_have_stable_numbers() {
    let numbers = [
        (FfiStatus::Completed, 0),
        (FfiStatus::WouldBlock, 1),
        (FfiStatus::BufferTooSmall, 2),
        (FfiStatus::InvalidArgument, 3),
        (FfiStatus::NotReady, 4),
        (FfiStatus::Closed, 5),
        (FfiStatus::Panic, 6),
        (FfiStatus::Failed, 7),
    ];
    for (status, number) in numbers {
        assert_eq!(status.code(), number);
    }
    assert_eq!(FfiRole::from_code(2), Some(FfiRole::Server));
    assert_eq!(FfiRecoveryMode::ReliableOnly.code(), 2);
    assert_eq!(FfiRecoverySnapshot::default().dropped, 0);
}

#[test]
fn default_paths_are_zero() {
    let path = FfiPathConfig::default();
    let zero = FfiSocketAddress { family: 0, port: 0, reserved: 0, address: [0; 16] };
    assert_eq!(path, FfiPathConfig { local: zero, peer: zero });
}

#[test]
fn a_path_is_given_up_once() {
    let mut engine = engine(FfiRole::Client);
    assert!(engine.runtime.next_timer().is_none());
    let mut buffer = [0; 8];
    engine.sockets[0].receive(true, &mut buffer);
    let (status, wakes) = engine.path_unavailable(0);
    assert_eq!((status, wakes.receiver, wakes.sender), (FfiStatus::Completed, true, false));
    let (status, wakes) = engine.path_unavailable(0);
    assert_eq!((status, wakes.receiver, wakes.sender), (FfiStatus::Completed, false, false));
    assert_eq!(engine.path_unavailable(1).0, FfiStatus::InvalidArgument);
}
