//! Runtime-neutral congestion-control extension points.
//!
//! The built-in profiles are selected by the configuration. This module adds a factory seam
//! for a custom controller that does not show the types of the QUIC backend.
use crate::config::duration::Duration;
use crate::header_protection::HeaderProtectionFactory;
use std::sync::Arc;
use vstd::prelude::*;

verus! {

/// A point of a monotonic clock.
#[derive(Clone, Copy, Debug, PartialEq, Eq, Structural)]
pub struct Instant {
    /// The time since the clock started.
    pub elapsed: Duration,
}

/// A bounded snapshot of the RTT estimator supplied to a custom controller.
#[derive(Clone, Copy, Debug, PartialEq, Eq, Structural)]
pub struct RttSnapshot {
    /// The current conservative RTT estimate.
    pub conservative: Duration,
    /// The current smoothed RTT estimate.
    pub smoothed: Duration,
    /// The minimum RTT observed so far.
    pub minimum: Duration,
}

/// A packet-sent notification for a custom controller.
#[derive(Clone, Copy, Debug, PartialEq, Eq, Structural)]
pub struct PacketSent {
    /// Monotonic timestamp supplied by the transport.
    pub now: Instant,
    /// Number of payload bytes sent.
    pub bytes: u64,
    /// Largest packet number in the send batch.
    pub largest_packet_number: u64,
}

/// An acknowledgement notification for a custom controller.
#[derive(Clone, Copy, Debug, PartialEq, Eq, Structural)]
pub struct PacketAcked {
    /// Monotonic timestamp supplied by the transport.
    pub now: Instant,
    /// Timestamp at which the acknowledged packet was sent.
    pub sent: Instant,
    /// Number of acknowledged payload bytes.
    pub bytes: u64,
    /// Acknowledged packet number.
    pub packet_number: u64,
    /// Whether the application was unable to provide data before this ACK.
    pub app_limited: bool,
    /// RTT information available at the ACK.
    pub rtt: RttSnapshot,
}

/// A completed ACK-batch notification for a custom controller.
#[derive(Clone, Copy, Debug, PartialEq, Eq, Structural)]
pub struct AckBatch {
    /// Monotonic timestamp supplied by the transport.
    pub now: Instant,
    /// Bytes currently in flight after processing the batch.
    pub in_flight: u64,
    /// Whether the application was unable to provide data before the batch.
    pub app_limited: bool,
    /// Largest packet number acknowledged by the batch, if any.
    pub largest_packet_number: Option<u64>,
}

/// A congestion-event notification for a custom controller.
#[derive(Clone, Copy, Debug, PartialEq, Eq, Structural)]
pub struct CongestionEvent {
    /// Monotonic timestamp supplied by the transport.
    pub now: Instant,
    /// Timestamp of the latest packet in the event.
    pub sent: Instant,
    /// Whether the event represents persistent congestion.
    pub persistent: bool,
    /// Whether ECN, rather than packet loss, triggered the event.
    pub ecn: bool,
    /// Number of lost bytes in the event.
    pub lost_bytes: u64,
    /// Largest packet number reported lost by the event.
    pub largest_lost_packet_number: u64,
}

/// Controller metrics consumed by QUICP pacing.
#[derive(Clone, Copy, Debug, PartialEq, Eq, Structural)]
pub struct CongestionMetrics {
    /// Congestion window in bytes.
    pub congestion_window: u64,
    /// Optional slow-start threshold in bytes.
    pub slow_start_threshold: Option<u64>,
    /// Optional pacing rate in bytes per second.
    pub pacing_rate_bytes_per_second: Option<u64>,
    /// Optional maximum send quantum in bytes.
    pub send_quantum: Option<u64>,
}

impl Default for RttSnapshot {
    fn default() -> (snapshot: Self)
        ensures
            snapshot == (RttSnapshot {
                conservative: Duration { seconds: 0, nanoseconds: 0 },
                smoothed: Duration { seconds: 0, nanoseconds: 0 },
                minimum: Duration { seconds: 0, nanoseconds: 0 },
            }),
    {
        let zero = Duration { seconds: 0, nanoseconds: 0 };
        RttSnapshot { conservative: zero, smoothed: zero, minimum: zero }
    }
}

impl Default for CongestionMetrics {
    fn default() -> (metrics: Self)
        ensures
            metrics == window_only(0),
    {
        window_metrics(0)
    }
}

/// The metrics of a controller that knows its window and nothing else.
pub open spec fn window_only(window: u64) -> CongestionMetrics {
    CongestionMetrics {
        congestion_window: window,
        slow_start_threshold: None,
        pacing_rate_bytes_per_second: None,
        send_quantum: None,
    }
}

/// The metrics of a controller that knows its window and nothing else.
pub fn window_metrics(window: u64) -> (metrics: CongestionMetrics)
    ensures
        metrics == window_only(window),
{
    CongestionMetrics {
        congestion_window: window,
        slow_start_threshold: None,
        pacing_rate_bytes_per_second: None,
        send_quantum: None,
    }
}

/// A custom connection/path congestion controller.
///
/// Methods are synchronous and allocation-free from the transport's perspective.
/// Implementations must keep all state bounded, return a nonzero `window`, and never mutate
/// packet authentication, recovery, flow-control, or carrier sequence state.
pub trait CongestionController: Sized + Send + Sync {
    /// Reports a batch of sent packets.
    fn on_sent(&mut self, event: PacketSent)
        default_ensures
            *final(self) == *old(self),
    {
    }

    /// Reports one packet being sent.
    fn on_packet_sent(&mut self, event: PacketSent)
        default_ensures
            *final(self) == *old(self),
    {
    }

    /// Reports one acknowledged packet.
    fn on_ack(&mut self, event: PacketAcked)
        default_ensures
            *final(self) == *old(self),
    {
    }

    /// Reports the end of an ACK batch.
    fn on_end_acks(&mut self, event: AckBatch)
        default_ensures
            *final(self) == *old(self),
    {
    }

    /// Reports packet or ECN congestion.
    fn on_congestion_event(&mut self, event: CongestionEvent)
        default_ensures
            *final(self) == *old(self),
    {
    }

    /// Reports one packet loss.
    fn on_packet_lost(&mut self, lost_bytes: u16, packet_number: u64, now: Instant)
        default_ensures
            *final(self) == *old(self),
    {
    }

    /// Reports a spurious congestion event.
    fn on_spurious_congestion_event(&mut self)
        default_ensures
            *final(self) == *old(self),
    {
    }

    /// Reports a path MTU update.
    fn on_mtu_update(&mut self, new_mtu: u16)
        default_ensures
            *final(self) == *old(self),
    {
    }

    /// Reports a peer ACK-frequency update.
    fn on_ack_frequency_update(&mut self, ack_eliciting_threshold: u64, requested_max_ack_delay: Duration)
        default_ensures
            *final(self) == *old(self),
    {
    }

    /// Returns the number of ack-eliciting bytes allowed in flight.
    fn window(&self) -> u64;

    /// Returns metrics used by QUICP pacing: by default those of a controller that knows its
    /// window and nothing else.
    fn metrics(&self) -> (metrics: CongestionMetrics)
        default_ensures
            exists|window: u64| call_ensures(Self::window, (self,), window) && metrics == window_only(window),
    {
        window_metrics(self.window())
    }

    /// Clones the current controller state for backend introspection.
    fn clone_box(&self) -> Box<Self>;

    /// Returns the initial congestion window in bytes.
    fn initial_window(&self) -> u64;
}

/// Constructs one controller for every new QUICP connection/path.
pub trait CongestionControllerFactory: Send + Sync {
    /// The controllers that it builds.
    type Controller: CongestionController;

    /// Builds a controller with the transport's initial clock and MTU.
    fn build(&self, now: Instant, current_mtu: u16) -> Box<Self::Controller>;
}

/// Options that are intentionally separate from serialized configuration.
///
/// `C` builds congestion controllers, and `H` builds header protection.
#[derive(Clone, Debug)]
pub struct TransportOptions<C, H> {
    custom_congestion: Option<Arc<C>>,
    custom_header_protection: Option<Arc<H>>,
}

impl<C: CongestionControllerFactory, H: HeaderProtectionFactory> TransportOptions<C, H> {
    /// The factory of congestion controllers, if there is one.
    pub closed spec fn congestion(&self) -> Option<Arc<C>> {
        self.custom_congestion
    }

    /// The factory of header protection, if there is one.
    pub closed spec fn header_protection(&self) -> Option<Arc<H>> {
        self.custom_header_protection
    }

    /// Creates options using the configured built-in congestion profile.
    #[must_use]
    pub fn new() -> (options: Self)
        ensures
            options.congestion() is None,
            options.header_protection() is None,
    {
        TransportOptions { custom_congestion: None, custom_header_protection: None }
    }

    /// Installs a custom congestion controller factory.
    #[must_use]
    pub fn with_congestion_controller_factory(self, factory: Arc<C>) -> (options: Self)
        ensures
            options.congestion() == Some(factory),
            options.header_protection() == self.header_protection(),
    {
        TransportOptions {
            custom_congestion: Some(factory),
            custom_header_protection: self.custom_header_protection,
        }
    }

    /// Installs custom header protection for the no-TLS profile.
    #[must_use]
    pub fn with_header_protection_factory(self, factory: Arc<H>) -> (options: Self)
        ensures
            options.header_protection() == Some(factory),
            options.congestion() == self.congestion(),
    {
        TransportOptions {
            custom_congestion: self.custom_congestion,
            custom_header_protection: Some(factory),
        }
    }

    /// The factory of congestion controllers, if there is one.
    pub fn custom_congestion(&self) -> (factory: Option<Arc<C>>)
        ensures
            factory == self.congestion(),
    {
        match &self.custom_congestion {
            Some(factory) => Some(Arc::clone(factory)),
            None => None,
        }
    }

    /// The factory of header protection, if there is one.
    pub fn custom_header_protection(&self) -> (factory: Option<Arc<H>>)
        ensures
            factory == self.header_protection(),
    {
        match &self.custom_header_protection {
            Some(factory) => Some(Arc::clone(factory)),
            None => None,
        }
    }
}

impl<C: CongestionControllerFactory, H: HeaderProtectionFactory> Default for TransportOptions<C, H> {
    fn default() -> (options: Self)
        ensures
            options.congestion() is None,
            options.header_protection() is None,
    {
        TransportOptions::new()
    }
}

}
