//! Bounded sliding-window repair over the field of 256 elements.
pub mod bounds;
pub mod commitment;
pub mod decoder;
pub mod field;
pub mod laws;
pub mod matrix;
pub mod room;
pub mod solutions;
pub mod symbol;
