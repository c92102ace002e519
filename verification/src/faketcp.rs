//! A datagram-preserving TCP-shaped carrier for QUICP packets.
//!
//! The carrier owns only packet appearance and per-path TCP bookkeeping. It does not
//! expose a byte-stream API and never waits for a missing sequence number before it
//! returns a payload.
pub mod carrier;
pub mod checksum;
pub mod cookie;
pub mod damage;
pub mod decode;
pub mod encode;
pub mod error;
pub mod exchange;
pub mod flags;
pub mod laws;
pub mod options;
pub mod packet;
pub mod reading;
pub mod sending;
pub mod tuple;
