//! What raw-socket adapters decide between their system calls.
pub mod batch;
pub mod error;
pub mod filter;
pub mod incoming;
pub mod lines;
pub mod poll;
pub mod outgoing;
pub mod receive;
pub mod ring;
pub mod route;
pub mod send;
pub mod tables;
pub mod windivert;
