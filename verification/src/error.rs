//! Errors of the toolkit.

use vstd::prelude::*;

verus! {

/// An error around a global of the server.
#[derive(Clone, Copy, Debug, PartialEq, Eq, Structural)]
pub enum GlobalError {
    /// The global is not there.
    MissingGlobal,
    /// The object that a request was made on is gone.
    InvalidId,
}

} // verus!
