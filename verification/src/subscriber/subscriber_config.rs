use vstd::prelude::*;

verus! {

/// What a broker is built with: two sizes, used only to reserve room.
pub trait SubscriberConfig: Default + Send {
    /// The number of subscribers to make room for at once.
    spec fn subscriber_hint(&self) -> usize;

    /// The number of events to make room for in a queue.
    spec fn channel_hint(&self) -> usize;

    /// The number of subscribers to make room for at once.
    fn subscriber_count(&self) -> (count: usize)
        ensures
            count == self.subscriber_hint(),
    ;

    /// The number of events to make room for in a queue.
    fn channel_size(&self) -> (size: usize)
        ensures
            size == self.channel_hint(),
    ;
}

} // verus!
