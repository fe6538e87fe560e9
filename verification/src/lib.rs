//! The logic of a Wayland client toolkit: what a client does with the events of a compositor.
//!
//! - [`compositor`]: the compositor global and the state kept for each surface.
//! - [`seat`]: the pointer, whose protocol events are grouped into frames.
//! - [`shm`]: shared memory pools, from the file descriptor behind them to their resizing.
//! - [`registry`], [`error`] and [`wire`]: what these have in common.
//!
//! Nothing here talks to a server or to the operating system. Where a step needs that, a function
//! says which call comes next and a later one takes what the call returned.

pub mod compositor;
pub mod error;
pub mod registry;
pub mod seat;
pub mod shm;
pub mod wire;
