//! Input devices of a seat.

pub mod laws;
pub mod pending;
pub mod pointer;
pub mod reporting;
