//! The broker itself: backlog, subscribers and configuration under one owner.

use crate::subscriber::broker_laws::lemma_step_preserves_inv;
use crate::subscriber::{
    failures, fan_out, lemma_failures_push, record, reported, Backlog, BrokerModel, Delivery,
    Registry, Request, Subscriber, SubscriberCallback, SubscriberConfig, SubscriberError,
    SubscriberEvent, SubscriberEventType, BACKLOG_CAPACITY,
};
use std::collections::VecDeque;
use vstd::prelude::*;

verus! {

/// `outcomes` holds, for each of `deliveries` in turn, what the subscriber
/// that it names in `registry` returned when it was notified of its event.
pub open spec fn attempts<Event, Error, Sub>(
    registry: Map<Event::Type, Seq<Sub>>,
    deliveries: Seq<Delivery<Event::Type, Event>>,
    outcomes: Seq<Result<(), Error>>,
) -> bool where Event: SubscriberEvent, Error: SubscriberError, Sub: Subscriber<Event, Error> {
    &&& outcomes.len() == deliveries.len()
    &&& forall|k: int|
        #![trigger outcomes[k]]
        0 <= k < deliveries.len() ==> call_ensures(
            Sub::notify,
            (&registry[deliveries[k].kind][deliveries[k].slot], deliveries[k].event),
            outcomes[k],
        )
}

/// `registration` is `request` with the subscriber in place of the callback
/// that it was made from.
pub open spec fn registered<Event, Error, Callback, Sub>(
    request: Request<Event::Type, Event, Callback>,
    registration: Request<Event::Type, Event, Sub>,
) -> bool where
    Event: SubscriberEvent,
    Error: SubscriberError,
    Callback: SubscriberCallback<Event> + 'static,
    Sub: Subscriber<Event, Error>,
 {
    match request {
        Request::Subscribe(kind, callback) => {
            &&& registration matches Request::Subscribe(registered_kind, subscriber)
            &&& registered_kind == kind
            &&& call_ensures(Sub::new::<Callback>, (callback,), subscriber)
        },
        Request::Publish(event) => registration == Request::<Event::Type, Event, Sub>::Publish(
            event,
        ),
        Request::Closed => registration is Closed,
    }
}

/// The number of types that a new broker has room to keep events for.
pub const BACKLOG_TYPES: usize = 20;

/// The number of types that a new broker has room to keep subscribers for.
pub const REGISTRY_TYPES: usize = 10;

/// The broker: it owns the backlog and the subscribers of every type, and
/// takes one request at a time.
pub struct SubscriberServer<Type, Event, Config, Sub> {
    store: Backlog<Type, Event>,
    config: Config,
    subscribers: Registry<Type, Sub>,
    running: bool,
}

impl<Type, Event, Config, Sub> View for SubscriberServer<Type, Event, Config, Sub> {
    type V = BrokerModel<Type, Event, Sub>;

    /// Whether the broker runs, what it keeps, and who has subscribed.
    closed spec fn view(&self) -> BrokerModel<Type, Event, Sub> {
        BrokerModel { running: self.running, backlog: self.store@, registry: self.subscribers@ }
    }
}

impl<Type, Event, Config, Sub> Default for SubscriberServer<Type, Event, Config, Sub> where
    Type: SubscriberEventType,
    Event: SubscriberEvent<Type = Type>,
    Config: SubscriberConfig,
 {
    fn default() -> (server: Self)
        ensures
            server.wf(),
            server@ == BrokerModel::<Type, Event, Sub>::initial(),
    {
        Self::new(Config::default())
    }
}

impl<Type, Event, Config, Sub> SubscriberServer<Type, Event, Config, Sub> where
    Type: SubscriberEventType,
    Event: SubscriberEvent<Type = Type>,
    Config: SubscriberConfig,
 {
    /// The broker's parts are sound, and it is as a broker has to be.
    pub closed spec fn wf(&self) -> bool {
        &&& self.store.wf()
        &&& self.subscribers.wf()
        &&& self@.inv()
    }

    /// What the broker was built with.
    pub closed spec fn spec_config(&self) -> Config {
        self.config
    }

    /// A sound broker is as a broker has to be.
    pub proof fn lemma_wf_inv(&self)
        requires
            self.wf(),
        ensures
            self@.inv(),
    {
    }

    /// A running broker that keeps no event and has no subscriber.
    pub fn new(config: Config) -> (server: Self)
        ensures
            server.wf(),
            server@ == BrokerModel::<Type, Event, Sub>::initial(),
            server.spec_config() == config,
    {
        let room = config.subscriber_count();
        let server = Self {
            store: Backlog::new(BACKLOG_TYPES),
            config,
            subscribers: Registry::new(REGISTRY_TYPES, room),
            running: true,
        };
        server
    }

    /// What the broker was built with.
    pub fn config(&self) -> (config: &Config)
        ensures
            *config == self.spec_config(),
    {
        &self.config
    }

    /// Whether the broker still takes requests.
    pub fn is_running(&self) -> (running: bool)
        ensures
            running == self@.running,
    {
        self.running
    }

    /// The number of events kept for `event_type`.
    pub fn pending(&self, event_type: &Type) -> (count: usize)
        requires
            self.wf(),
        ensures
            count == self@.backlog[*event_type].len(),
            count <= BACKLOG_CAPACITY,
    {
        self.store.pending(event_type)
    }

    /// The number of subscribers of `event_type`.
    pub fn subscriber_count(&self, event_type: &Type) -> (count: usize)
        requires
            self.wf(),
        ensures
            count == self@.registry[*event_type].len(),
    {
        self.subscribers.count(event_type)
    }

    /// Takes one request, and reports the errors that subscribers returned while
    /// it was served, in the order of the deliveries.
    ///
    /// A broker that has ended takes nothing: the request is dropped. A
    /// running broker ends on the kill signal, which it neither keeps nor hands
    /// to anyone, and when its channels are closed. Any other event goes to
    /// the subscribers of its type, or into the backlog where there are none. A
    /// subscription hands the backlog of its type to the new subscriber before
    /// it registers it.
    pub fn step<Callback, Error>(
        &mut self,
        request: Request<Type, Event, Callback>,
    ) -> (report: Vec<Error>) where
        Error: SubscriberError,
        Sub: Subscriber<Event, Error>,
        Callback: SubscriberCallback<Event> + 'static,

        requires
            old(self).wf(),
        ensures
            final(self).wf(),
            final(self).spec_config() == old(self).spec_config(),
            !old(self)@.running ==> final(self)@ == old(self)@ && report@.len() == 0,
            old(self)@.running ==> exists|
                registration: Request<Type, Event, Sub>,
                outcomes: Seq<Result<(), Error>>,
            |
                {
                    &&& registered::<Event, Error, Callback, Sub>(request, registration)
                    &&& final(self)@ == old(self)@.step(registration)
                    &&& #[trigger] attempts(
                        final(self)@.registry,
                        old(self)@.deliveries(registration),
                        outcomes,
                    )
                    &&& report@ == failures(outcomes)
                },
    {
        if !self.running {
            return Vec::new();
        }
        let ghost before = self@;
        match request {
            Request::Subscribe(event_type, callback) => {
                let report = self.subscribe::<Callback, Error>(event_type, callback);
                proof {
                    let (subscriber, outcomes) = choose|
                        subscriber: Sub,
                        outcomes: Seq<Result<(), Error>>,
                    |
                        {
                            &&& call_ensures(Sub::new::<Callback>, (callback,), subscriber)
                            &&& self@ == before.step(Request::Subscribe(event_type, subscriber))
                            &&& #[trigger] attempts(
                                self@.registry,
                                before.deliveries(Request::Subscribe(event_type, subscriber)),
                                outcomes,
                            )
                            &&& report@ == failures(outcomes)
                        };
                    assert(registered::<Event, Error, Callback, Sub>(
                        request,
                        Request::Subscribe(event_type, subscriber),
                    ));
                }
                report
            },
            Request::Publish(event) => {
                let ghost registration = Request::<Type, Event, Sub>::Publish(event);
                if event.should_kill() {
                    self.running = false;
                    proof {
                        assert(self@ == before.step(registration));
                        assert(attempts(
                            self@.registry,
                            before.deliveries(registration),
                            Seq::<Result<(), Error>>::empty(),
                        ));
                    }
                    Vec::new()
                } else {
                    let found = self.send::<Error>(event);
                    match found {
                        Some(errors) => errors,
                        None => Vec::new(),
                    }
                }
            },
            Request::Closed => {
                let ghost registration = Request::<Type, Event, Sub>::Closed;
                self.running = false;
                proof {
                    assert(attempts(
                        self@.registry,
                        before.deliveries(registration),
                        Seq::<Result<(), Error>>::empty(),
                    ));
                }
                Vec::new()
            },
        }
    }

    /// Takes an event that is not the kill signal: hands it to the subscribers
    /// of its type, or keeps it where there are none.
    fn send<Error>(&mut self, event: Event) -> (report: Option<Vec<Error>>) where
        Error: SubscriberError,
        Sub: Subscriber<Event, Error>,

        requires
            old(self).wf(),
            old(self)@.running,
            !event.is_kill(),
        ensures
            final(self).wf(),
            final(self).spec_config() == old(self).spec_config(),
            final(self)@ == old(self)@.step(Request::Publish(event)),
            exists|outcomes: Seq<Result<(), Error>>|
                #[trigger] attempts(
                    final(self)@.registry,
                    old(self)@.deliveries(Request::Publish(event)),
                    outcomes,
                ) && reported(outcomes, report),
    {
        let ghost before = self@;
        let ghost request = Request::<Type, Event, Sub>::Publish(event);
        proof {
            lemma_step_preserves_inv(before, request);
        }
        let event_type = event.get_type();
        match self.subscribers.get(&event_type) {
            Some(subscribers) => {
                let report = subscribers.notify::<Event, Error>(event);
                proof {
                    let outcomes = choose|outcomes: Seq<Result<(), Error>>|
                        #[trigger] fan_out(subscribers@, event, outcomes) && reported(
                            outcomes,
                            report,
                        );
                    assert(attempts(self@.registry, before.deliveries(request), outcomes));
                }
                report
            },
            None => {
                let room = self.config.channel_size();
                self.store.push(event_type, event, room);
                proof {
                    assert(attempts(
                        self@.registry,
                        before.deliveries(request),
                        Seq::<Result<(), Error>>::empty(),
                    ));
                }
                None
            },
        }
    }

    /// Registers a subscriber made from `callback` for `event_type`, after
    /// handing it the events kept for that type, oldest first.
    fn subscribe<Callback, Error>(
        &mut self,
        event_type: Type,
        callback: Callback,
    ) -> (report: Vec<Error>) where
        Error: SubscriberError,
        Sub: Subscriber<Event, Error>,
        Callback: SubscriberCallback<Event> + 'static,

        requires
            old(self).wf(),
            old(self)@.running,
        ensures
            final(self).wf(),
            final(self).spec_config() == old(self).spec_config(),
            exists|subscriber: Sub, outcomes: Seq<Result<(), Error>>|
                {
                    &&& call_ensures(Sub::new::<Callback>, (callback,), subscriber)
                    &&& final(self)@ == old(self)@.step(Request::Subscribe(event_type, subscriber))
                    &&& #[trigger] attempts(
                        final(self)@.registry,
                        old(self)@.deliveries(Request::Subscribe(event_type, subscriber)),
                        outcomes,
                    )
                    &&& report@ == failures(outcomes)
                },
    {
        let ghost before = self@;
        let sub: Sub = Subscriber::new(callback);
        let ghost request = Request::<Type, Event, Sub>::Subscribe(event_type, sub);
        let mut kept: VecDeque<Event> = self.store.drain(&event_type);
        let ghost replay = kept@;
        let ghost mut outcomes: Seq<Result<(), Error>> = Seq::empty();
        let mut report: Vec<Error> = Vec::new();
        while kept.len() > 0
            invariant
                outcomes.len() + kept@.len() == replay.len(),
                kept@ == replay.subrange(outcomes.len() as int, replay.len() as int),
                forall|k: int|
                    #![trigger outcomes[k]]
                    0 <= k < outcomes.len() ==> call_ensures(
                        Sub::notify,
                        (&sub, replay[k]),
                        outcomes[k],
                    ),
                report@ == failures(outcomes),
            decreases kept@.len(),
        {
            let event = kept.pop_front().unwrap();
            let outcome = sub.notify(event);
            proof {
                lemma_failures_push(outcomes, outcome);
                outcomes = outcomes.push(outcome);
            }
            record(&mut report, outcome);
        }
        self.subscribers.register::<Event, Error>(event_type, sub);
        proof {
            assert(attempts(self@.registry, before.deliveries(request), outcomes));
        }
        report
    }
}

} // verus!
