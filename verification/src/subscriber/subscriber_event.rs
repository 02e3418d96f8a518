use crate::subscriber::SubscriberEventType;
use vstd::prelude::*;

verus! {

/// An event: an immutable value that can be duplicated, belongs to one type,
/// and may be the signal that ends the broker.
pub trait SubscriberEvent: Clone + Send + Sync + Sized {
    type Type: SubscriberEventType;

    /// Whether this event is the kill signal.
    spec fn is_kill(&self) -> bool;

    /// The type that this event belongs to.
    spec fn kind(&self) -> Self::Type;

    /// Whether the broker's loop ends on this event.
    fn should_kill(&self) -> (kill: bool)
        ensures
            kill == self.is_kill(),
    ;

    /// Returns the type of this event.
    fn get_type(&self) -> (kind: Self::Type)
        ensures
            kind == self.kind(),
    ;

    /// A duplicate made by `clone` is the same event.
    proof fn lemma_duplicate_is_exact(event: Self, duplicate: Self)
        requires
            cloned(event, duplicate),
        ensures
            duplicate == event,
    ;
}

} // verus!
