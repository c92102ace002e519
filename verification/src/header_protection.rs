//! Optional QUICP packet-header protection for the no-TLS profile.
//!
//! This seam maps to the backend's QUIC-style header-protection operation. It does not
//! encrypt the outer IPv4/TCP headers, hide connection IDs, or authenticate the QUICP
//! payload. Use the TLS profile or a separate authenticated packet layer when
//! confidentiality and integrity are required.
use std::sync::Arc;
use vstd::prelude::*;

verus! {

/// Which endpoint direction is creating a header-protection key pair.
#[derive(Clone, Copy, Debug, PartialEq, Eq, Structural)]
pub enum HeaderProtectionSide {
    /// The client/initiator side.
    Client,
    /// The server/acceptor side.
    Server,
}

/// A user-provided QUICP packet-header protector.
pub trait QuicpHeaderProtector: Send + Sync {
    /// Removes protection from the packet header in place.
    ///
    /// The slice contains the whole backend packet so an implementation can sample it; only
    /// header-protection bits may be changed.
    fn decrypt(&self, packet_number_offset: usize, packet: &mut [u8]);

    /// Applies protection to the packet header in place.
    ///
    /// The slice contains the whole backend packet so an implementation can sample it; only
    /// header-protection bits may be changed.
    fn encrypt(&self, packet_number_offset: usize, packet: &mut [u8]);

    /// Returns the sample bytes required by the protector.
    ///
    /// Zero disables the callback and therefore selects the default plaintext header. A
    /// nonzero value must leave enough bytes after `packet_number_offset + 4` for the backend
    /// to sample on every packet.
    fn sample_size(&self) -> usize;
}

/// The local and remote protectors used by one no-TLS endpoint.
#[derive(Clone, Debug)]
pub struct HeaderProtectionKeys<P> {
    /// What protects the packets that this endpoint sends.
    pub local: Arc<P>,
    /// What protects the packets that it receives.
    pub remote: Arc<P>,
}

impl<P: QuicpHeaderProtector> HeaderProtectionKeys<P> {
    /// Creates a directional local/remote key pair.
    #[must_use]
    pub fn new(local: Arc<P>, remote: Arc<P>) -> (keys: Self)
        ensures
            keys.local == local,
            keys.remote == remote,
    {
        HeaderProtectionKeys { local, remote }
    }
}

/// Builds header-protection keys for a no-TLS client or server endpoint.
pub trait HeaderProtectionFactory: Send + Sync {
    /// The protectors that it builds.
    type Protector: QuicpHeaderProtector;

    /// Builds stable directional keys for the selected endpoint side.
    ///
    /// A client/server pair must return matching directions: the client's local protector
    /// must behave like the server's remote protector, and vice versa.
    fn build(&self, side: HeaderProtectionSide) -> HeaderProtectionKeys<Self::Protector>;
}

}
