//! Shared memory pools.

pub mod fd;
pub mod laws;
pub mod name;
pub mod raw;
