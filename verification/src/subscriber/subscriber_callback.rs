use crate::subscriber::SubscriberEvent;
use vstd::prelude::*;

verus! {

/// What a subscriber is made from: a function that takes one event and may be
/// called from any thread, any number of times.
pub trait SubscriberCallback<Event> where
    Self: Fn(Event) + Send + Sync,
    Event: SubscriberEvent + Sized,
 {
}

impl<F: Sized + Sync, Event> SubscriberCallback<Event> for F where
    Self: Fn(Event) + Send,
    Event: SubscriberEvent,
 {
}

} // verus!
