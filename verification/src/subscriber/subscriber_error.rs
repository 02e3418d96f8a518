use vstd::prelude::*;

verus! {

/// What a subscriber reports when it could not take an event.
pub trait SubscriberError: Send {
}

} // verus!
