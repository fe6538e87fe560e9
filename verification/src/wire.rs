//! Values as they come from and go to the server.

use vstd::prelude::*;

verus! {

/// A protocol enum: a value that the protocol defines, or any other number.
#[derive(Debug, PartialEq, Eq, Structural)]
pub enum WEnum<T> {
    Value(T),
    Unknown(u32),
}

impl<T: Copy> Clone for WEnum<T> {
    fn clone(&self) -> (value: WEnum<T>)
        ensures
            value == *self,
    {
        *self
    }
}

impl<T: Copy> Copy for WEnum<T> {

}

} // verus!
