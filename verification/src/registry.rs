//! Globals of the server.

use crate::error::GlobalError;
use vstd::prelude::*;

verus! {

/// A global that is bound once the server has listed what it offers.
#[derive(Debug)]
pub enum GlobalProxy<I> {
    /// The global has not been bound, or could not be.
    NotPresent,
    /// The bound global.
    Bound(I),
}

impl<I> GlobalProxy<I> {
    pub fn new() -> (proxy: GlobalProxy<I>)
        ensures
            proxy == GlobalProxy::<I>::NotPresent,
    {
        GlobalProxy::NotPresent
    }

    /// The global, for those who need it.
    pub fn get(&self) -> (global: Result<&I, GlobalError>)
        ensures
            global == match *self {
                GlobalProxy::Bound(bound) => Ok::<&I, GlobalError>(&bound),
                GlobalProxy::NotPresent => Err::<&I, GlobalError>(GlobalError::MissingGlobal),
            },
    {
        match self {
            GlobalProxy::Bound(bound) => Ok(bound),
            GlobalProxy::NotPresent => Err(GlobalError::MissingGlobal),
        }
    }

    /// Keeps what an attempt to bind the global gave.
    pub fn from_bind<E>(bound: Result<I, E>) -> (proxy: GlobalProxy<I>)
        ensures
            proxy == match bound {
                Ok(bound) => GlobalProxy::Bound(bound),
                Err(_) => GlobalProxy::NotPresent,
            },
    {
        match bound {
            Ok(bound) => GlobalProxy::Bound(bound),
            Err(_) => GlobalProxy::NotPresent,
        }
    }
}

/// A global that was bound is given to those who need it. One that could not be bound, or has not
/// been yet, is missing.
pub proof fn lemma_bound_global_is_given<I, E>(
    bound: I,
    error: E,
    kept: GlobalProxy<I>,
    failed: GlobalProxy<I>,
    fresh: GlobalProxy<I>,
    given: (Result<&I, GlobalError>, Result<&I, GlobalError>, Result<&I, GlobalError>),
)
    requires
        call_ensures(GlobalProxy::<I>::from_bind::<E>, (Ok(bound),), kept),
        call_ensures(GlobalProxy::<I>::from_bind::<E>, (Err(error),), failed),
        call_ensures(GlobalProxy::<I>::new, (), fresh),
        call_ensures(GlobalProxy::<I>::get, (&kept,), given.0),
        call_ensures(GlobalProxy::<I>::get, (&failed,), given.1),
        call_ensures(GlobalProxy::<I>::get, (&fresh,), given.2),
    ensures
        given.0 == Ok::<&I, GlobalError>(&bound),
        given.1 == Err::<&I, GlobalError>(GlobalError::MissingGlobal),
        given.2 == Err::<&I, GlobalError>(GlobalError::MissingGlobal),
{
}

} // verus!
