//! Validated endpoint, security, path, and carrier configuration.
//!
//! Parsed settings and programmatic constructors share the same validation rules.
//! Invariant-bearing fields stay private so endpoint construction can validate the
//! complete snapshot again.
pub mod carrier;
pub mod duration;
pub mod endpoint;
pub mod error;
pub mod limits;
pub mod mtu;
pub mod multipath;
pub mod path;
pub mod tls;
pub mod transport;
pub mod trust;
