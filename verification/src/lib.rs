//! Verified core of the QUICP transport: a QUIC based alternative to TCP whose
//! datagrams travel in TCP shaped packets.
pub mod address;
pub mod config;
pub mod congestion;
pub mod crypto;
pub mod dispatch;
pub mod encoding;
pub mod endian;
pub mod extension;
pub mod fakeip;
pub mod faketcp;
pub mod fec;
pub mod flow;
pub mod ffi;
pub mod fuzzing;
pub mod gf256;
pub mod header_protection;
pub mod host_carrier;
pub mod host_queue;
pub mod host_runtime;
pub mod host_schedule;
pub mod raw;
pub mod recovery;
pub mod storage;
pub mod text;
