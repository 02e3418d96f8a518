//! What holds of every broker: what it keeps while a type has no
//! subscriber, what a subscriber is handed and in which order, and what the
//! kill signal does.

use crate::subscriber::{
    fan_out, fanned, most_recent, published, publishes, received, replayed, subscribes_to,
    BrokerModel, Delivery, Request, Subscriber, SubscriberError, SubscriberEvent,
    BACKLOG_CAPACITY,
};
use vstd::prelude::*;

verus! {

/// A broker that has just been made is as a broker has to be.
pub proof fn lemma_initial_inv<Event: SubscriberEvent, Sub>()
    ensures
        BrokerModel::<Event::Type, Event, Sub>::initial().inv(),
{
}

/// Whatever is asked of a broker, it stays as a broker has to be: events are
/// kept only for a type without subscribers, never more than the capacity, and
/// never the kill signal.
pub proof fn lemma_step_preserves_inv<Event: SubscriberEvent, Sub>(
    broker: BrokerModel<Event::Type, Event, Sub>,
    request: Request<Event::Type, Event, Sub>,
)
    requires
        broker.inv(),
    ensures
        broker.step(request).inv(),
{
}

/// However many requests a broker takes, it stays as a broker has to be.
pub proof fn lemma_run_preserves_inv<Event: SubscriberEvent, Sub>(
    broker: BrokerModel<Event::Type, Event, Sub>,
    requests: Seq<Request<Event::Type, Event, Sub>>,
)
    requires
        broker.inv(),
    ensures
        broker.run(requests).inv(),
    decreases requests.len(),
{
    if requests.len() > 0 {
        lemma_run_preserves_inv(broker, requests.drop_last());
    }
}

/// Requests taken one run after another are the requests of both runs taken
/// as one: the broker ends in the same state, and the deliveries of the first
/// run come before those of the second.
pub proof fn lemma_run_concat<Event: SubscriberEvent, Sub>(
    broker: BrokerModel<Event::Type, Event, Sub>,
    first: Seq<Request<Event::Type, Event, Sub>>,
    then: Seq<Request<Event::Type, Event, Sub>>,
)
    ensures
        broker.run(first + then) == broker.run(first).run(then),
        broker.trace(first + then) == broker.trace(first) + broker.run(first).trace(then),
    decreases then.len(),
{
    if then.len() > 0 {
        lemma_run_concat(broker, first, then.drop_last());
        assert((first + then).drop_last() == first + then.drop_last());
    }
}

/// What a subscriber was handed in two traces, one after the other, is what
/// it was handed in the first followed by what it was handed in the second.
pub proof fn lemma_received_concat<Type, Event>(
    first: Seq<Delivery<Type, Event>>,
    then: Seq<Delivery<Type, Event>>,
    kind: Type,
    slot: int,
)
    ensures
        received(first + then, kind, slot) == received(first, kind, slot) + received(
            then,
            kind,
            slot,
        ),
    decreases then.len(),
{
    if then.len() > 0 {
        lemma_received_concat(first, then.drop_last(), kind, slot);
        assert((first + then).drop_last() == first + then.drop_last());
    }
}

/// Of an event handed to the first `count` subscribers of a type, each of
/// them is handed that event once, and nobody else is handed anything.
pub proof fn lemma_received_fanned<Type, Event>(
    kind: Type,
    count: nat,
    event: Event,
    other: Type,
    slot: int,
)
    ensures
        received(fanned(kind, count, event), other, slot) == if other == kind && 0 <= slot < count {
            seq![event]
        } else {
            Seq::<Event>::empty()
        },
    decreases count,
{
    if count > 0 {
        let shorter = (count - 1) as nat;
        lemma_received_fanned(kind, shorter, event, other, slot);
        assert(fanned(kind, count, event).drop_last() == fanned(kind, shorter, event));
    }
}

/// Of events replayed to one subscriber, that subscriber is handed all of
/// them in their order, and nobody else is handed anything.
pub proof fn lemma_received_replayed<Type, Event>(
    kind: Type,
    slot: int,
    events: Seq<Event>,
    other: Type,
    other_slot: int,
)
    ensures
        received(replayed(kind, slot, events), other, other_slot) == if other == kind && other_slot
            == slot {
            events
        } else {
            Seq::<Event>::empty()
        },
    decreases events.len(),
{
    if events.len() > 0 {
        lemma_received_replayed(kind, slot, events.drop_last(), other, other_slot);
        assert(replayed(kind, slot, events).drop_last() == replayed(
            kind,
            slot,
            events.drop_last(),
        ));
    }
}

/// Keeping the most recent events after each arrival keeps the most recent
/// events of all arrivals.
pub proof fn lemma_most_recent_push<Event>(events: Seq<Event>, event: Event, capacity: nat)
    ensures
        most_recent(most_recent(events, capacity).push(event), capacity) == most_recent(
            events.push(event),
            capacity,
        ),
{
}

/// While a type has no subscriber, the backlog holds the most recent events
/// published to it, no more than the capacity, in the order in which they
/// came; older ones are dropped, and nobody is handed anything.
pub proof fn lemma_backlog_keeps_most_recent<Event: SubscriberEvent, Sub>(
    broker: BrokerModel<Event::Type, Event, Sub>,
    kind: Event::Type,
    events: Seq<Event>,
)
    requires
        broker.inv(),
        broker.running,
        broker.registry[kind].len() == 0,
        forall|i: int|
            0 <= i < events.len() ==> (#[trigger] events[i]).kind() == kind
                && !events[i].is_kill(),
    ensures
        broker.run(publishes(events)) == (BrokerModel {
            backlog: broker.backlog.insert(
                kind,
                most_recent(broker.backlog[kind] + events, BACKLOG_CAPACITY as nat),
            ),
            ..broker
        }),
        broker.run(publishes(events)).backlog[kind].len() <= BACKLOG_CAPACITY,
        broker.trace(publishes(events)) == Seq::<Delivery<Event::Type, Event>>::empty(),
    decreases events.len(),
{
    let requests = publishes::<Event::Type, Event, Sub>(events);
    if events.len() == 0 {
        assert(broker.backlog.insert(kind, broker.backlog[kind]) == broker.backlog);
    } else {
        let earlier = events.drop_last();
        let event = events.last();
        let middle = broker.run(publishes(earlier));
        lemma_backlog_keeps_most_recent(broker, kind, earlier);
        assert(requests.drop_last() == publishes::<Event::Type, Event, Sub>(earlier));
        lemma_most_recent_push(broker.backlog[kind] + earlier, event, BACKLOG_CAPACITY as nat);
        assert((broker.backlog[kind] + earlier).push(event) == broker.backlog[kind] + events);
        assert(middle.step(requests.last()).backlog == broker.backlog.insert(
            kind,
            most_recent(broker.backlog[kind] + events, BACKLOG_CAPACITY as nat),
        ));
    }
}

/// A new subscriber is handed the backlog of its type, and exactly that,
/// oldest first, before anything that is published after it subscribed; the
/// backlog of the type is empty from then on.
pub proof fn lemma_subscriber_hears_backlog_first<Event: SubscriberEvent, Sub>(
    broker: BrokerModel<Event::Type, Event, Sub>,
    kind: Event::Type,
    subscriber: Sub,
    later: Seq<Request<Event::Type, Event, Sub>>,
)
    requires
        broker.inv(),
        broker.running,
    ensures
        broker.backlog[kind].len() <= BACKLOG_CAPACITY,
        broker.deliveries(Request::Subscribe(kind, subscriber)) == replayed(
            kind,
            broker.registry[kind].len() as int,
            broker.backlog[kind],
        ),
        broker.step(Request::Subscribe(kind, subscriber)).backlog[kind] == Seq::<Event>::empty(),
        broker.step(Request::Subscribe(kind, subscriber)).registry[kind]
            == broker.registry[kind].push(subscriber),
        received(
            broker.trace(seq![Request::Subscribe(kind, subscriber)] + later),
            kind,
            broker.registry[kind].len() as int,
        ) == broker.backlog[kind] + received(
            broker.step(Request::Subscribe(kind, subscriber)).trace(later),
            kind,
            broker.registry[kind].len() as int,
        ),
{
    let request = Request::<Event::Type, Event, Sub>::Subscribe(kind, subscriber);
    let slot = broker.registry[kind].len() as int;
    let alone = seq![request];
    assert(broker.trace(alone.drop_last()) == Seq::<Delivery<Event::Type, Event>>::empty());
    lemma_run_concat(broker, alone, later);
    lemma_received_concat(broker.trace(alone), broker.step(request).trace(later), kind, slot);
    lemma_received_replayed(kind, slot, broker.backlog[kind], kind, slot);
}

/// The kill signal ends the broker at once: nothing is kept, nobody is handed
/// anything, and no later request changes the broker or is delivered.
pub proof fn lemma_kill_halts<Event: SubscriberEvent, Sub>(
    broker: BrokerModel<Event::Type, Event, Sub>,
    event: Event,
    later: Seq<Request<Event::Type, Event, Sub>>,
)
    requires
        event.is_kill(),
    ensures
        !broker.step(Request::Publish(event)).running,
        broker.step(Request::Publish(event)).backlog == broker.backlog,
        broker.step(Request::Publish(event)).registry == broker.registry,
        broker.deliveries(Request::Publish(event)) == Seq::<Delivery<Event::Type, Event>>::empty(),
        broker.step(Request::Publish(event)).run(later) == broker.step(Request::Publish(event)),
        broker.step(Request::Publish(event)).trace(later) == Seq::<
            Delivery<Event::Type, Event>,
        >::empty(),
    decreases later.len(),
{
    if later.len() > 0 {
        lemma_kill_halts(broker, event, later.drop_last());
    }
}

/// The kill signal is never handed to a subscriber and never kept, whatever
/// is asked of the broker.
pub proof fn lemma_kill_is_never_delivered<Event: SubscriberEvent, Sub>(
    broker: BrokerModel<Event::Type, Event, Sub>,
    requests: Seq<Request<Event::Type, Event, Sub>>,
)
    requires
        broker.inv(),
    ensures
        forall|i: int|
            0 <= i < broker.trace(requests).len() ==> !(#[trigger] broker.trace(
                requests,
            )[i]).event.is_kill(),
        forall|kind: Event::Type, i: int|
            0 <= i < broker.run(requests).backlog[kind].len() ==> !(#[trigger] broker.run(
                requests,
            ).backlog[kind][i]).is_kill(),
    decreases requests.len(),
{
    lemma_run_preserves_inv(broker, requests);
    if requests.len() > 0 {
        let earlier = requests.drop_last();
        lemma_kill_is_never_delivered(broker, earlier);
        lemma_run_preserves_inv(broker, earlier);
        assert(broker.trace(requests) == broker.trace(earlier) + broker.run(earlier).deliveries(
            requests.last(),
        ));
    }
}

/// Every subscriber of a type is handed every event published to that type,
/// in the order in which they were published, and none of them is kept.
pub proof fn lemma_every_subscriber_receives_all<Event: SubscriberEvent, Sub>(
    broker: BrokerModel<Event::Type, Event, Sub>,
    kind: Event::Type,
    events: Seq<Event>,
    slot: int,
)
    requires
        broker.inv(),
        broker.running,
        0 <= slot < broker.registry[kind].len(),
        forall|i: int|
            0 <= i < events.len() ==> (#[trigger] events[i]).kind() == kind
                && !events[i].is_kill(),
    ensures
        received(broker.trace(publishes(events)), kind, slot) == events,
        broker.run(publishes(events)) == broker,
    decreases events.len(),
{
    let requests = publishes::<Event::Type, Event, Sub>(events);
    if events.len() > 0 {
        let earlier = events.drop_last();
        let event = events.last();
        lemma_every_subscriber_receives_all(broker, kind, earlier, slot);
        assert(requests.drop_last() == publishes::<Event::Type, Event, Sub>(earlier));
        let last = broker.deliveries(requests.last());
        lemma_received_concat(broker.trace(publishes(earlier)), last, kind, slot);
        lemma_received_fanned(kind, broker.registry[kind].len(), event, kind, slot);
    }
}

/// A broker that has ended stays ended: one that runs after `requests` ran
/// all the way through them.
pub proof fn lemma_ran_throughout<Event: SubscriberEvent, Sub>(
    broker: BrokerModel<Event::Type, Event, Sub>,
    requests: Seq<Request<Event::Type, Event, Sub>>,
    taken: int,
)
    requires
        broker.run(requests).running,
        0 <= taken <= requests.len(),
    ensures
        broker.run(requests.take(taken)).running,
    decreases requests.len(),
{
    if taken == requests.len() {
        assert(requests.take(taken) == requests);
    } else {
        lemma_ran_throughout(broker, requests.drop_last(), taken);
        assert(requests.drop_last().take(taken) == requests.take(taken));
    }
}

/// Nobody leaves: whatever is asked of a broker, the subscribers that a type
/// had stay where they are, in front of those that came later.
pub proof fn lemma_subscribers_stay<Event: SubscriberEvent, Sub>(
    broker: BrokerModel<Event::Type, Event, Sub>,
    requests: Seq<Request<Event::Type, Event, Sub>>,
    kind: Event::Type,
)
    requires
        broker.inv(),
    ensures
        broker.registry[kind].is_prefix_of(broker.run(requests).registry[kind]),
    decreases requests.len(),
{
    if requests.len() > 0 {
        lemma_subscribers_stay(broker, requests.drop_last(), kind);
    }
}

/// A subscriber is handed every event that is published to its type for as
/// long as the broker runs, in the order in which they are published, and
/// nothing else, whatever else is asked of the broker meanwhile.
pub proof fn lemma_subscriber_receives_published<Event: SubscriberEvent, Sub>(
    broker: BrokerModel<Event::Type, Event, Sub>,
    requests: Seq<Request<Event::Type, Event, Sub>>,
    kind: Event::Type,
    slot: int,
)
    requires
        broker.inv(),
        broker.run(requests).running,
        0 <= slot < broker.registry[kind].len(),
    ensures
        received(broker.trace(requests), kind, slot) == published(requests, kind),
    decreases requests.len(),
{
    if requests.len() > 0 {
        let earlier = requests.drop_last();
        let middle = broker.run(earlier);
        lemma_subscriber_receives_published(broker, earlier, kind, slot);
        lemma_subscribers_stay(broker, earlier, kind);
        let last = middle.deliveries(requests.last());
        lemma_received_concat(broker.trace(earlier), last, kind, slot);
        match requests.last() {
            Request::Subscribe(subscribed, subscriber) => {
                lemma_received_replayed(
                    subscribed,
                    middle.registry[subscribed].len() as int,
                    middle.backlog[subscribed],
                    kind,
                    slot,
                );
            },
            Request::Publish(event) => {
                lemma_received_fanned(
                    event.kind(),
                    middle.registry[event.kind()].len(),
                    event,
                    kind,
                    slot,
                );
            },
            Request::Closed => {},
        }
    }
}

/// While nobody subscribes to a type, the backlog holds the most recent
/// events published to it, no more than the capacity, in the order in which
/// they came, whatever else is asked of the broker meanwhile; and nobody is
/// handed an event of that type.
pub proof fn lemma_backlog_holds_published<Event: SubscriberEvent, Sub>(
    broker: BrokerModel<Event::Type, Event, Sub>,
    requests: Seq<Request<Event::Type, Event, Sub>>,
    kind: Event::Type,
)
    requires
        broker.inv(),
        broker.run(requests).running,
        broker.registry[kind].len() == 0,
        forall|i: int| 0 <= i < requests.len() ==> !subscribes_to(#[trigger] requests[i], kind),
    ensures
        broker.run(requests).backlog[kind] == most_recent(
            broker.backlog[kind] + published(requests, kind),
            BACKLOG_CAPACITY as nat,
        ),
        broker.run(requests).registry[kind].len() == 0,
        forall|i: int|
            0 <= i < broker.trace(requests).len() ==> (#[trigger] broker.trace(requests)[i]).kind
                != kind,
    decreases requests.len(),
{
    if requests.len() > 0 {
        let earlier = requests.drop_last();
        lemma_backlog_holds_published(broker, earlier, kind);
        lemma_run_preserves_inv(broker, earlier);
        assert(!subscribes_to(requests[requests.len() - 1], kind));
        assert(broker.trace(requests) == broker.trace(earlier) + broker.run(earlier).deliveries(
            requests.last(),
        ));
    }
}

/// A new subscriber is handed the backlog of its type, oldest first, and
/// then every event that is published to its type for as long as the broker
/// runs, in the order in which they are published, and nothing else.
pub proof fn lemma_new_subscriber_hears_backlog_then_published<Event: SubscriberEvent, Sub>(
    broker: BrokerModel<Event::Type, Event, Sub>,
    kind: Event::Type,
    subscriber: Sub,
    later: Seq<Request<Event::Type, Event, Sub>>,
)
    requires
        broker.inv(),
        broker.running,
        broker.step(Request::Subscribe(kind, subscriber)).run(later).running,
    ensures
        received(
            broker.trace(seq![Request::Subscribe(kind, subscriber)] + later),
            kind,
            broker.registry[kind].len() as int,
        ) == broker.backlog[kind] + published(later, kind),
        broker.backlog[kind].len() > 0 ==> broker.registry[kind].len() == 0,
{
    let request = Request::<Event::Type, Event, Sub>::Subscribe(kind, subscriber);
    let subscribed = broker.step(request);
    lemma_subscriber_hears_backlog_first(broker, kind, subscriber, later);
    lemma_subscriber_receives_published(
        subscribed,
        later,
        kind,
        broker.registry[kind].len() as int,
    );
}

/// A subscriber that fails does not keep another from being notified: in a
/// fan-out every subscriber has an outcome, whatever the others returned.
pub proof fn lemma_failure_is_isolated<Event, Error, Sub>(
    subscribers: Seq<Sub>,
    event: Event,
    outcomes: Seq<Result<(), Error>>,
    failed: int,
    other: int,
) where Event: SubscriberEvent, Error: SubscriberError, Sub: Subscriber<Event, Error>
    requires
        fan_out(subscribers, event, outcomes),
        0 <= failed < subscribers.len(),
        outcomes[failed] is Err,
        0 <= other < subscribers.len(),
        other != failed,
    ensures
        call_ensures(Sub::notify, (&subscribers[other], event), outcomes[other]),
{
}

} // verus!
