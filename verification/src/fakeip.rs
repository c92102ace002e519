//! A journal that gives host names stable addresses out of a private pool.
pub mod allocation;
pub mod directory;
pub mod error;
pub mod journal;
pub mod laws;
pub mod pool;
pub mod record;
