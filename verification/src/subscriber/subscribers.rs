//! The subscribers of one type, and the fan-out of an event to them.

use crate::subscriber::{Subscriber, SubscriberError, SubscriberEvent};
use vstd::prelude::*;

verus! {

/// The most entries that a size given as a hint reserves room for.
pub const RESERVE_LIMIT: usize = 1024;

/// The room to reserve for a size given as a hint.
pub fn reserve_for(hint: usize) -> (room: usize)
    ensures
        room == if hint <= RESERVE_LIMIT { hint } else { RESERVE_LIMIT },
{
    if hint <= RESERVE_LIMIT {
        hint
    } else {
        RESERVE_LIMIT
    }
}

/// The errors among `outcomes`, in the order of the outcomes.
pub open spec fn failures<Error>(outcomes: Seq<Result<(), Error>>) -> Seq<Error>
    decreases outcomes.len(),
{
    if outcomes.len() == 0 {
        Seq::empty()
    } else {
        let earlier = failures(outcomes.drop_last());
        match outcomes.last() {
            Ok(_) => earlier,
            Err(error) => earlier.push(error),
        }
    }
}

/// `outcomes` holds, for each of `subscribers` in turn, what that subscriber
/// returned when it was notified of `event`.
pub open spec fn fan_out<Event, Error, Sub>(
    subscribers: Seq<Sub>,
    event: Event,
    outcomes: Seq<Result<(), Error>>,
) -> bool where Event: SubscriberEvent, Error: SubscriberError, Sub: Subscriber<Event, Error> {
    &&& outcomes.len() == subscribers.len()
    &&& forall|i: int|
        #![trigger outcomes[i]]
        0 <= i < subscribers.len() ==> call_ensures(
            Sub::notify,
            (&subscribers[i], event),
            outcomes[i],
        )
}

/// What a fan-out with these outcomes reports: nothing where every delivery
/// succeeded, else the errors in the order of the subscribers.
pub open spec fn reported<Error>(
    outcomes: Seq<Result<(), Error>>,
    report: Option<Vec<Error>>,
) -> bool {
    match report {
        None => failures(outcomes).len() == 0,
        Some(errors) => errors@ == failures(outcomes) && errors@.len() > 0,
    }
}

/// The errors of a longer run of outcomes are those of the run before the last
/// outcome, followed by the error of the last outcome if it is one.
pub proof fn lemma_failures_push<Error>(outcomes: Seq<Result<(), Error>>, last: Result<(), Error>)
    ensures
        failures(outcomes.push(last)) == match last {
            Ok(_) => failures(outcomes),
            Err(error) => failures(outcomes).push(error),
        },
{
    assert(outcomes.push(last).drop_last() == outcomes);
}

/// Adds to `errors` the error of `outcome`, if it is one.
pub fn record<Error>(errors: &mut Vec<Error>, outcome: Result<(), Error>)
    ensures
        final(errors)@ == match outcome {
            Ok(_) => old(errors)@,
            Err(error) => old(errors)@.push(error),
        },
{
    match outcome {
        Ok(_) => {},
        Err(error) => {
            errors.push(error);
        },
    }
}

/// The report of a fan-out that met these errors: `None` where there were none.
pub fn report_of<Error>(errors: Vec<Error>) -> (report: Option<Vec<Error>>)
    ensures
        errors@.len() == 0 ==> report is None,
        errors@.len() > 0 ==> report == Some(errors),
{
    if errors.len() == 0 {
        None
    } else {
        Some(errors)
    }
}

/// The subscribers of one type of event, in the order in which they registered.
pub struct Subscribers<Sub> {
    subscribers: Vec<Sub>,
}

impl<Sub> View for Subscribers<Sub> {
    type V = Seq<Sub>;

    /// The subscribers, first registered first.
    closed spec fn view(&self) -> Seq<Sub> {
        self.subscribers@
    }
}

impl<Sub> Default for Subscribers<Sub> {
    fn default() -> (subscribers: Self)
        ensures
            subscribers@ == Seq::<Sub>::empty(),
    {
        Self::new(3)
    }
}

impl<Sub> Subscribers<Sub> {
    /// An empty list with room for `sub_count` subscribers.
    #[must_use]
    pub fn new(sub_count: usize) -> (subscribers: Self)
        ensures
            subscribers@ == Seq::<Sub>::empty(),
    {
        Self { subscribers: Vec::with_capacity(reserve_for(sub_count)) }
    }

    /// The number of subscribers.
    pub fn len(&self) -> (len: usize)
        ensures
            len == self@.len(),
    {
        self.subscribers.len()
    }

    /// Whether nobody has registered.
    pub fn is_empty(&self) -> (empty: bool)
        ensures
            empty == (self@.len() == 0),
    {
        self.subscribers.len() == 0
    }

    /// Registers `subscriber` behind those already there.
    pub fn push<Event, Error>(&mut self, subscriber: Sub) where
        Event: SubscriberEvent,
        Error: SubscriberError,
        Sub: Subscriber<Event, Error>,

        ensures
            final(self)@ == old(self)@.push(subscriber),
    {
        self.subscribers.push(subscriber);
    }

    /// Notifies every subscriber of `event`, in the order of registration, each
    /// with its own duplicate (a single subscriber gets the event itself), and
    /// reports the errors they returned.
    ///
    /// A subscriber that fails does not keep the later ones from being
    /// notified: there is one outcome for each subscriber, and the report holds
    /// the errors among them in the subscribers' order, or is `None` where all
    /// succeeded.
    pub fn notify<Event, Error>(&self, event: Event) -> (report: Option<Vec<Error>>) where
        Event: SubscriberEvent,
        Error: SubscriberError,
        Sub: Subscriber<Event, Error>,

        ensures
            exists|outcomes: Seq<Result<(), Error>>|
                #[trigger] fan_out(self@, event, outcomes) && reported(outcomes, report),
    {
        let mut errors: Vec<Error> = Vec::new();
        let ghost mut outcomes: Seq<Result<(), Error>> = Seq::empty();
        if self.subscribers.len() == 1 {
            let outcome = self.subscribers[0].notify(event);
            proof {
                lemma_failures_push(outcomes, outcome);
                outcomes = outcomes.push(outcome);
            }
            record(&mut errors, outcome);
        } else {
            let mut i: usize = 0;
            while i < self.subscribers.len()
                invariant
                    i <= self.subscribers.len(),
                    outcomes.len() == i,
                    forall|k: int|
                        #![trigger outcomes[k]]
                        0 <= k < i ==> call_ensures(
                            Sub::notify,
                            (&self.subscribers@[k], event),
                            outcomes[k],
                        ),
                    errors@ == failures(outcomes),
                decreases self.subscribers.len() - i,
            {
                let duplicate = event.clone();
                proof {
                    Event::lemma_duplicate_is_exact(event, duplicate);
                }
                let outcome = self.subscribers[i].notify(duplicate);
                proof {
                    lemma_failures_push(outcomes, outcome);
                    outcomes = outcomes.push(outcome);
                }
                record(&mut errors, outcome);
                i += 1;
            }
        }
        proof {
            assert(fan_out(self@, event, outcomes));
        }
        report_of(errors)
    }
}

} // verus!
