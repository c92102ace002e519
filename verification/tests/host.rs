//! The host-driven runtime and sockets, and the extension points of the transport.
use std::sync::Arc;

use quicp::address::{IpAddress, SocketAddress};
use quicp::config::duration::Duration;
use quicp::congestion::{
    window_metrics, CongestionController, CongestionControllerFactory, CongestionMetrics, Instant, PacketSent,
    TransportOptions,
};
use quicp::header_protection::{
    HeaderProtectionFactory, HeaderProtectionKeys, HeaderProtectionSide, QuicpHeaderProtector,
};
use quicp::host_carrier::{HostDatagramError, HostDatagramSocket, HostReceive, HostSend};
use quicp::host_runtime::{DriveStep, HostRuntime, HostRuntimeError, TaskOutcome};

#[derive(Debug)]
struct ProbeFactory;

#[derive(Debug)]
struct ProbeController;

#[derive(Debug)]
struct PlainController;

impl CongestionController for ProbeController {
    fn on_sent(&mut self, _event: PacketSent) {}

    fn window(&self) -> u64 {
        42_000
    }

    fn metrics(&self) -> CongestionMetrics {
        CongestionMetrics {
            congestion_window: 42_000,
            slow_start_threshold: Some(21_000),
            pacing_rate_bytes_per_second: Some(84_000),
            send_quantum: Some(1_200),
        }
    }

    fn clone_box(&self) -> Box<Self> {
        Box::new(Self)
    }

    fn initial_window(&self) -> u64 {
        2_400
    }
}

impl CongestionController for PlainController {
    fn window(&self) -> u64 {
        7
    }

    fn clone_box(&self) -> Box<Self> {
        Box::new(Self)
    }

    fn initial_window(&self) -> u64 {
        7
    }
}

impl CongestionControllerFactory for ProbeFactory {
    type Controller = ProbeController;

    fn build(&self, _now: Instant, _current_mtu: u16) -> Box<ProbeController> {
        Box::new(ProbeController)
    }
}

#[derive(Debug)]
struct PlainProbe;

impl QuicpHeaderProtector for PlainProbe {
    fn decrypt(&self, _packet_number_offset: usize, _packet: &mut [u8]) {}

    fn encrypt(&self, _packet_number_offset: usize, _packet: &mut [u8]) {}

    fn sample_size(&self) -> usize {
        0
    }
}

#[derive(Debug)]
struct ProbeKeys;

impl HeaderProtectionFactory for ProbeKeys {
    type Protector = PlainProbe;

    fn build(&self, _side: HeaderProtectionSide) -> HeaderProtectionKeys<PlainProbe> {
        HeaderProtectionKeys::new(Arc::new(PlainProbe), Arc::new(PlainProbe))
    }
}

fn start() -> Instant {
    Instant { elapsed: Duration { seconds: 0, nanoseconds: 0 } }
}

#[test]
fn custom_factory_is_adapted_without_leaking_backend_types() {
    let options = TransportOptions::<ProbeFactory, ProbeKeys>::new()
        .with_congestion_controller_factory(Arc::new(ProbeFactory));
    assert!(options.custom_congestion().is_some());
    assert!(options.custom_header_protection().is_none());

    let factory = options.custom_congestion().unwrap();
    let mut controller = factory.build(start(), 1_200);
    controller.on_sent(PacketSent { now: start(), bytes: 1_200, largest_packet_number: 7 });
    assert_eq!(controller.window(), 42_000);
    assert_eq!(controller.initial_window(), 2_400);
    let metrics = controller.metrics();
    assert_eq!(metrics.congestion_window, 42_000);
    assert_eq!(metrics.slow_start_threshold, Some(21_000));
    assert_eq!(metrics.pacing_rate_bytes_per_second, Some(84_000));
    assert_eq!(metrics.send_quantum, Some(1_200));
    assert_eq!(controller.clone_box().window(), 42_000);
}

#[test]
fn default_metrics_know_only_the_window() {
    assert_eq!(PlainController.metrics(), window_metrics(7));
    assert_eq!(window_metrics(7).congestion_window, 7);
    assert_eq!(window_metrics(7).send_quantum, None);
    assert_eq!(CongestionMetrics::default(), window_metrics(0));
}

#[test]
fn factory_builds_directional_keys_without_backend_types() {
    let keys = ProbeKeys.build(HeaderProtectionSide::Client);
    assert_eq!(keys.local.sample_size(), 0);
    assert_eq!(keys.remote.sample_size(), 0);
    let options = TransportOptions::<ProbeFactory, ProbeKeys>::default()
        .with_header_protection_factory(Arc::new(ProbeKeys));
    assert!(options.custom_header_protection().is_some());
    assert!(options.custom_congestion().is_none());
}

#[test]
fn shutdown_signal_only_changes_on_shutdown() {
    let mut runtime = HostRuntime::new();
    assert!(!runtime.is_closed());
    runtime.shutdown().unwrap();
    assert!(runtime.is_closed());
}

fn seconds(seconds: u64) -> Duration {
    Duration { seconds, nanoseconds: 0 }
}

#[test]
fn runtime_polls_ready_tasks_in_order_and_once() {
    let mut runtime = HostRuntime::new();
    let (first, notify) = runtime.spawn().unwrap();
    assert!(notify);
    let (second, notify) = runtime.spawn().unwrap();
    assert!(!notify);
    assert!(!runtime.schedule(first));
    runtime.begin_drive(seconds(1), true, 10).unwrap();
    assert_eq!(runtime.begin_drive(seconds(1), true, 10), Err(HostRuntimeError::ConcurrentDrive));
    assert_eq!(runtime.next_task(), DriveStep::Poll(first));
    runtime.after_poll(first, TaskOutcome::Done).unwrap();
    assert_eq!(runtime.next_task(), DriveStep::Poll(second));
    runtime.after_poll(second, TaskOutcome::Pending).unwrap();
    assert_eq!(runtime.next_task(), DriveStep::Finished { processed: 2, notify: false });
    assert_eq!(runtime.begin_drive(seconds(0), true, 10), Err(HostRuntimeError::TimeWentBackwards));
    assert_eq!(runtime.begin_drive(seconds(2), false, 10), Err(HostRuntimeError::TimeOutsideRange));
    assert!(runtime.schedule(second));
    runtime.begin_drive(seconds(2), true, 10).unwrap();
    assert_eq!(runtime.next_task(), DriveStep::Poll(second));
    assert_eq!(runtime.after_poll(second, TaskOutcome::Panicked), Err(HostRuntimeError::TaskPanicked));
    assert_eq!(runtime.shutdown(), Ok(Vec::new()));
    assert_eq!(runtime.spawn(), Err(HostRuntimeError::Closed));
}

#[test]
fn runtime_reports_the_earliest_timer() {
    let mut runtime = HostRuntime::new();
    let late = runtime.new_timer(seconds(9));
    let soon = runtime.new_timer(seconds(4));
    assert!(!runtime.poll_timer(late));
    assert!(!runtime.poll_timer(soon));
    assert_eq!(runtime.next_timer(), Some(seconds(4)));
    assert_eq!(runtime.begin_drive(seconds(5), true, 1).unwrap(), vec![soon]);
    assert_eq!(runtime.next_timer(), Some(seconds(9)));
    assert!(runtime.poll_timer(soon));
    runtime.drop_timer(late);
    assert_eq!(runtime.next_timer(), None);
}

fn address(port: u16) -> SocketAddress {
    SocketAddress { ip: IpAddress::V4(0x7f00_0001), port, flow_info: 0, scope_id: 0 }
}

#[test]
fn host_socket_bounds_its_queues_and_keeps_their_order() {
    let (local, peer) = (address(1), address(2));
    assert_eq!(HostDatagramSocket::new(local, peer, 0, 10).unwrap_err(), HostDatagramError::ZeroCapacity);
    assert_eq!(HostDatagramSocket::new(local, peer, 1, 0).unwrap_err(), HostDatagramError::ZeroMtu);
    assert_eq!(
        HostDatagramSocket::new(local, peer, usize::MAX, 2).unwrap_err(),
        HostDatagramError::BudgetOverflow
    );
    let mut socket = HostDatagramSocket::new(local, peer, 2, 4).unwrap();
    let mut output = [0; 4];
    assert_eq!(socket.receive(true, &mut output), HostReceive::Pending);
    assert_eq!(socket.ingress_datagram(b"one"), Ok(true));
    assert_eq!(socket.ingress_datagram(b"two!"), Ok(false));
    assert_eq!(socket.ingress_datagram(b"x"), Err(HostDatagramError::QueueFull));
    assert_eq!(
        socket.ingress_datagram(b"large"),
        Err(HostDatagramError::PacketOutsideMtu { len: 5, mtu: 4 })
    );
    assert_eq!(
        socket.ingress_datagram_from(address(3), b"x"),
        Err(HostDatagramError::PeerMismatch { expected: peer, actual: address(3) })
    );
    assert_eq!(socket.receive(false, &mut output), HostReceive::NoBuffer);
    assert_eq!(socket.receive(true, &mut output[..2]), HostReceive::BufferTooSmall { required: 3, capacity: 2 });
    assert_eq!(socket.receive(true, &mut output), HostReceive::Received(3));
    assert_eq!(&output[..3], b"one");
    assert_eq!(socket.receive(true, &mut output), HostReceive::Received(4));
    assert_eq!(&output, b"two!");

    assert_eq!(socket.send(address(9), None, None, b"x"), HostSend::WrongPath);
    assert_eq!(socket.send(peer, Some(IpAddress::V4(1)), None, b"x"), HostSend::WrongPath);
    assert_eq!(socket.send(peer, None, Some(1), b"x"), HostSend::Segmented);
    assert_eq!(socket.send(peer, None, None, b""), HostSend::OutsideMtu);
    assert_eq!(socket.send(peer, None, None, b"out1"), HostSend::Sent);
    assert_eq!(socket.send(peer, None, None, b"out2"), HostSend::Sent);
    assert_eq!(socket.send(peer, None, None, b"out3"), HostSend::Pending);
    assert_eq!(
        socket.poll_egress_datagram_into(&mut output[..1]),
        Err(HostDatagramError::BufferTooSmall { required: 4, capacity: 1 })
    );
    assert_eq!(socket.poll_egress_datagram_into(&mut output), Ok(Some((4, true))));
    assert_eq!(&output, b"out1");
    socket.mark_unavailable();
    assert_eq!(socket.poll_egress_datagram_into(&mut output), Err(HostDatagramError::Unavailable));
    assert_eq!(socket.receive(true, &mut output), HostReceive::NetworkDown);
    assert_eq!(socket.send(peer, None, None, b"x"), HostSend::NetworkDown);
    assert_eq!((socket.local_addr(), socket.peer_addr(), socket.mtu()), (local, peer, 4));
}
