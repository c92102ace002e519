//! Synchronous foreign interface of a host-driven QUICP connection.
//!
//! Foreign buffers are borrowed for one call. One engine is single-owner and host-driven; no
//! future, callback, collection, or retained foreign pointer crosses the interface. What
//! stands here are the values that cross it and every decision on them; reading and writing
//! the caller's memory is left to the caller of this module.
pub mod accept;
pub mod engine;
pub mod flows;
pub mod interface;
pub mod lifecycle;
pub mod memory;
pub mod open;
pub mod state;
pub mod types;
