//! Established bidirectional flows and their bounded OPEN/STATUS exchange.
pub mod admission;
pub mod control;
pub mod duties;
pub mod handle;
pub mod laws;
pub mod lifetime;
pub mod opening;
pub mod pending;
pub mod state;
pub mod task;
pub mod turn;
pub mod write;
