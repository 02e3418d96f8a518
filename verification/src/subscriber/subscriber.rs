use crate::subscriber::{SubscriberCallback, SubscriberError, SubscriberEvent};
use vstd::prelude::*;

verus! {

/// The owner of one callback, registered for one type of event.
///
/// Whether a delivery succeeds is for the subscriber to say: a subscriber that
/// shields its callback turns a callback that ends abnormally into `Err`.
pub trait Subscriber<Event, Error>: Send + Sized where
    Error: SubscriberError,
    Event: SubscriberEvent,
 {
    /// A subscriber that owns `callback`.
    fn new<T: SubscriberCallback<Event> + 'static>(callback: T) -> Self;

    /// Hands `event` to the callback.
    ///
    /// # Errors
    /// Where the event could not be delivered, what went wrong.
    fn notify(&self, event: Event) -> Result<(), Error>;
}

} // verus!
