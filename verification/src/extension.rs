//! What holds of the extension points that a user fills in.
use crate::congestion;
use crate::congestion::{CongestionControllerFactory, CongestionMetrics, TransportOptions};
use crate::header_protection::{HeaderProtectionFactory, HeaderProtectionKeys, QuicpHeaderProtector};
use std::sync::Arc;
use vstd::prelude::*;

verus! {

/// Metrics of a window say that window, and nothing that is not known.
pub proof fn law_window_metrics_say_only_the_window(window: u64, metrics: CongestionMetrics)
    requires
        call_ensures(congestion::window_metrics, (window,), metrics),
    ensures
        metrics.congestion_window == window,
        metrics.slow_start_threshold is None,
        metrics.pacing_rate_bytes_per_second is None,
        metrics.send_quantum is None,
{
}

/// Options hold the factory that they were given last, of each kind, and none before.
pub proof fn law_options_hold_the_factories_they_were_given<
    C: CongestionControllerFactory,
    H: HeaderProtectionFactory,
>(
    fresh: TransportOptions<C, H>,
    congestion: Arc<C>,
    with_congestion: TransportOptions<C, H>,
    protection: Arc<H>,
    with_both: TransportOptions<C, H>,
    none: Option<Arc<C>>,
    found: Option<Arc<C>>,
    protected: Option<Arc<H>>,
)
    requires
        call_ensures(TransportOptions::<C, H>::new, (), fresh),
        call_ensures(TransportOptions::<C, H>::custom_congestion, (&fresh,), none),
        call_ensures(
            TransportOptions::<C, H>::with_congestion_controller_factory,
            (fresh, congestion),
            with_congestion,
        ),
        call_ensures(
            TransportOptions::<C, H>::with_header_protection_factory,
            (with_congestion, protection),
            with_both,
        ),
        call_ensures(TransportOptions::<C, H>::custom_congestion, (&with_both,), found),
        call_ensures(TransportOptions::<C, H>::custom_header_protection, (&with_both,), protected),
    ensures
        none is None,
        found == Some(congestion),
        protected == Some(protection),
{
}

/// Keys protect what is sent with the local one and open what comes with the remote one.
pub proof fn law_keys_are_told_apart<P: QuicpHeaderProtector>(
    local: Arc<P>,
    remote: Arc<P>,
    keys: HeaderProtectionKeys<P>,
)
    requires
        call_ensures(HeaderProtectionKeys::<P>::new, (local, remote), keys),
    ensures
        keys.local == local,
        keys.remote == remote,
{
}

} // verus!
