//! The broker as a state machine over mathematical values: what it is after
//! a request, and which deliveries the request causes.

use crate::subscriber::{most_recent, SubscriberEvent, BACKLOG_CAPACITY};
use vstd::prelude::*;

verus! {

/// What a broker can be asked to do in one step.
///
/// `Registration` is what a subscription is made with: the callback, as the
/// request comes in; the subscriber made from it, once the broker has made one.
pub enum Request<Type, Event, Registration> {
    /// Register for the events of a type.
    Subscribe(Type, Registration),
    /// Publish an event.
    Publish(Event),
    /// Every handle that could send a request is gone.
    Closed,
}

/// One event handed to one subscriber: the subscriber is the one at `slot`
/// among the subscribers of `kind`.
pub struct Delivery<Type, Event> {
    pub kind: Type,
    pub slot: int,
    pub event: Event,
}

/// A broker as mathematics: whether it still runs, the events it keeps for
/// each type, and the subscribers of each type.
#[verifier::reject_recursive_types(Type)]
pub struct BrokerModel<Type, Event, Sub> {
    pub running: bool,
    pub backlog: Map<Type, Seq<Event>>,
    pub registry: Map<Type, Seq<Sub>>,
}

/// `event` handed to each of the first `count` subscribers of `kind`, in
/// their order.
pub open spec fn fanned<Type, Event>(kind: Type, count: nat, event: Event) -> Seq<
    Delivery<Type, Event>,
> {
    Seq::new(count, |slot: int| Delivery { kind, slot, event })
}

/// Each of `events`, in their order, handed to the subscriber at `slot`
/// among those of `kind`.
pub open spec fn replayed<Type, Event>(kind: Type, slot: int, events: Seq<Event>) -> Seq<
    Delivery<Type, Event>,
> {
    Seq::new(events.len(), |i: int| Delivery { kind, slot, event: events[i] })
}

/// The events that the subscriber at `slot` among those of `kind` was handed
/// in `trace`, in the order of the trace.
pub open spec fn received<Type, Event>(
    trace: Seq<Delivery<Type, Event>>,
    kind: Type,
    slot: int,
) -> Seq<Event>
    decreases trace.len(),
{
    if trace.len() == 0 {
        Seq::empty()
    } else {
        let earlier = received(trace.drop_last(), kind, slot);
        if trace.last().kind == kind && trace.last().slot == slot {
            earlier.push(trace.last().event)
        } else {
            earlier
        }
    }
}

/// One publish request for each of `events`, in their order.
pub open spec fn publishes<Type, Event, Sub>(events: Seq<Event>) -> Seq<Request<Type, Event, Sub>> {
    Seq::new(events.len(), |i: int| Request::Publish(events[i]))
}

/// The events of `kind` that `requests` publish, in the order of the requests.
pub open spec fn published<Event: SubscriberEvent, Registration>(
    requests: Seq<Request<Event::Type, Event, Registration>>,
    kind: Event::Type,
) -> Seq<Event>
    decreases requests.len(),
{
    if requests.len() == 0 {
        Seq::empty()
    } else {
        let earlier = published(requests.drop_last(), kind);
        match requests.last() {
            Request::Publish(event) => if event.kind() == kind {
                earlier.push(event)
            } else {
                earlier
            },
            _ => earlier,
        }
    }
}

/// Whether `request` is a subscription to `kind`.
pub open spec fn subscribes_to<Type, Event, Registration>(
    request: Request<Type, Event, Registration>,
    kind: Type,
) -> bool {
    request matches Request::Subscribe(subscribed, _) && subscribed == kind
}

impl<Event: SubscriberEvent, Sub> BrokerModel<Event::Type, Event, Sub> {
    /// A running broker that keeps no event and has no subscriber.
    pub open spec fn initial() -> Self {
        BrokerModel {
            running: true,
            backlog: Map::total(|kind: Event::Type| Seq::empty()),
            registry: Map::total(|kind: Event::Type| Seq::empty()),
        }
    }

    /// What holds of a broker at all times: events are kept only for a type
    /// without subscribers, no more than the capacity for each type, each
    /// under its own type, and the kill signal is never among them.
    pub open spec fn inv(self) -> bool {
        &&& forall|kind: Event::Type| #[trigger] self.backlog.dom().contains(kind)
        &&& forall|kind: Event::Type| #[trigger] self.registry.dom().contains(kind)
        &&& forall|kind: Event::Type| (#[trigger] self.backlog[kind]).len() <= BACKLOG_CAPACITY
        &&& forall|kind: Event::Type|
            (#[trigger] self.backlog[kind]).len() > 0 ==> self.registry[kind].len() == 0
        &&& forall|kind: Event::Type, i: int|
            0 <= i < self.backlog[kind].len() ==> {
                &&& (#[trigger] self.backlog[kind][i]).kind() == kind
                &&& !self.backlog[kind][i].is_kill()
            }
    }

    /// The broker after one request.
    ///
    /// A broker that has ended stays as it is. A running broker ends on the
    /// kill signal and when its channels are closed. It hands any other
    /// event to the subscribers of the event's type, or, where there are none,
    /// keeps it as the newest of that type. A subscription empties the backlog
    /// of its type and puts the subscriber behind those already registered.
    pub open spec fn step(self, request: Request<Event::Type, Event, Sub>) -> Self {
        if !self.running {
            self
        } else {
            match request {
                Request::Subscribe(kind, subscriber) => BrokerModel {
                    running: true,
                    backlog: self.backlog.insert(kind, Seq::empty()),
                    registry: self.registry.insert(kind, self.registry[kind].push(subscriber)),
                },
                Request::Publish(event) => if event.is_kill() {
                    BrokerModel { running: false, ..self }
                } else if self.registry[event.kind()].len() > 0 {
                    self
                } else {
                    BrokerModel {
                        backlog: self.backlog.insert(
                            event.kind(),
                            most_recent(
                                self.backlog[event.kind()].push(event),
                                BACKLOG_CAPACITY as nat,
                            ),
                        ),
                        ..self
                    }
                },
                Request::Closed => BrokerModel { running: false, ..self },
            }
        }
    }

    /// The deliveries that one request causes, in the order in which they are
    /// made.
    ///
    /// An event that is not the kill signal goes to every subscriber of its
    /// type, in the order of registration. A subscription hands the backlog of
    /// its type, oldest first, to the new subscriber. Nothing else is
    /// delivered.
    pub open spec fn deliveries(self, request: Request<Event::Type, Event, Sub>) -> Seq<
        Delivery<Event::Type, Event>,
    > {
        if !self.running {
            Seq::empty()
        } else {
            match request {
                Request::Subscribe(kind, subscriber) => replayed(
                    kind,
                    self.registry[kind].len() as int,
                    self.backlog[kind],
                ),
                Request::Publish(event) => if event.is_kill() {
                    Seq::empty()
                } else {
                    fanned(event.kind(), self.registry[event.kind()].len(), event)
                },
                Request::Closed => Seq::empty(),
            }
        }
    }

    /// The broker after `requests`, taken in their order.
    pub open spec fn run(self, requests: Seq<Request<Event::Type, Event, Sub>>) -> Self
        decreases requests.len(),
    {
        if requests.len() == 0 {
            self
        } else {
            self.run(requests.drop_last()).step(requests.last())
        }
    }

    /// All deliveries that `requests` cause, taken in their order.
    pub open spec fn trace(self, requests: Seq<Request<Event::Type, Event, Sub>>) -> Seq<
        Delivery<Event::Type, Event>,
    >
        decreases requests.len(),
    {
        if requests.len() == 0 {
            Seq::empty()
        } else {
            self.trace(requests.drop_last()) + self.run(requests.drop_last()).deliveries(
                requests.last(),
            )
        }
    }
}

} // verus!
