//! The queue of pointer events that wait for the end of their frame.

use super::pointer::PointerEvent;
use vstd::prelude::*;
use wayland_backend::smallvec::SmallVec;

verus! {

/// The pointer events that wait for the end of their frame, oldest first.
///
/// Most frames hold few events, so the queue is a `SmallVec` that keeps three of them in place.
#[verifier::external_body]
#[derive(Debug)]
pub struct PendingEvents {
    events: SmallVec<[PointerEvent; 3]>,
}

/// The events in the queue, oldest first.
pub uninterp spec fn queued(pending: PendingEvents) -> Seq<PointerEvent>;

/// One more event can be queued behind `len` others: the room that the queue then asks for, at
/// most twice what it needs and at most 128 bytes for an event, is no larger than an allocation
/// can be.
pub open spec fn room_for_one(len: nat) -> bool {
    (len + 1) * 256 <= isize::MAX
}

impl PendingEvents {
    /// Makes an empty queue, as `SmallVec::new` makes an empty vector.
    #[verifier::external_body]
    pub(crate) fn new() -> (pending: PendingEvents)
        ensures
            queued(pending) == Seq::<PointerEvent>::empty(),
    {
        PendingEvents { events: SmallVec::new() }
    }

    /// The number of events in the queue, which is what `SmallVec::len` returns.
    #[verifier::external_body]
    pub(crate) fn len(&self) -> (len: usize)
        ensures
            len == queued(*self).len(),
    {
        self.events.len()
    }

    /// Puts an event behind all others, as `SmallVec::push` does.
    ///
    /// `SmallVec::push` panics when the memory it asks for would be larger than `isize::MAX` bytes.
    #[verifier::external_body]
    pub(crate) fn push(&mut self, event: PointerEvent)
        requires
            room_for_one(queued(*old(self)).len()),
        ensures
            queued(*final(self)) == queued(*old(self)).push(event),
    {
        self.events.push(event)
    }

    /// The newest event, or `None` in an empty queue: `last` of the slice that `SmallVec::as_slice`
    /// returns.
    #[verifier::external_body]
    pub(crate) fn last(&self) -> (newest: Option<&PointerEvent>)
        ensures
            newest == (if queued(*self).len() == 0 {
                None
            } else {
                Some(&queued(*self).last())
            }),
    {
        self.events.as_slice().last()
    }

    /// The newest event, to be changed in place, or `None` in an empty queue: `last_mut` of the
    /// slice that `SmallVec::as_mut_slice` returns.
    #[verifier::external_body]
    pub(crate) fn last_mut(&mut self) -> (newest: Option<&mut PointerEvent>)
        ensures
            match newest {
                Some(event) => {
                    &&& queued(*old(self)).len() > 0
                    &&& *event == queued(*old(self)).last()
                    &&& queued(*final(self)) == queued(*old(self)).drop_last().push(*final(event))
                },
                None => queued(*old(self)).len() == 0 && queued(*final(self)) == queued(
                    *old(self),
                ),
            },
    {
        self.events.as_mut_slice().last_mut()
    }

    /// All events in order, as `SmallVec::into_vec` hands them out.
    #[verifier::external_body]
    pub(crate) fn into_vec(self) -> (events: Vec<PointerEvent>)
        ensures
            events@ == queued(self),
    {
        self.events.into_vec()
    }
}

} // verus!
