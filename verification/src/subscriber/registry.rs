//! The subscribers of every type.

use crate::subscriber::{
    distinct, lemma_place_after_push, place_of, position, reserve_for, Subscriber,
    SubscriberError, SubscriberEvent, SubscriberEventType, Subscribers,
};
use vstd::prelude::*;

verus! {

/// For each type, the subscribers registered for it, in the order in which
/// they registered. Nobody ever leaves.
pub struct Registry<Type, Sub> {
    keys: Vec<Type>,
    lists: Vec<Subscribers<Sub>>,
    room: usize,
}

impl<Type, Sub> View for Registry<Type, Sub> {
    type V = Map<Type, Seq<Sub>>;

    /// The subscribers of each type, first registered first; none for a type
    /// that nobody registered for.
    closed spec fn view(&self) -> Map<Type, Seq<Sub>> {
        Map::total(
            |kind: Type|
                match place_of(self.keys@, kind) {
                    Some(i) => self.lists@[i]@,
                    None => Seq::empty(),
                },
        )
    }
}

impl<Type: SubscriberEventType, Sub> Registry<Type, Sub> {
    /// Every type has one list at most, and a list that is there is not empty.
    pub closed spec fn wf(&self) -> bool {
        &&& self.keys@.len() == self.lists@.len()
        &&& distinct(self.keys@)
        &&& forall|i: int| 0 <= i < self.lists@.len() ==> (#[trigger] self.lists@[i])@.len() > 0
    }

    /// A registry without subscribers, with room for `types` types; a type's
    /// list is made with room for `room` subscribers.
    pub fn new(types: usize, room: usize) -> (registry: Self)
        ensures
            registry.wf(),
            registry@ == Map::<Type, Seq<Sub>>::total(|kind: Type| Seq::<Sub>::empty()),
    {
        let reserved = reserve_for(types);
        let registry = Self {
            keys: Vec::with_capacity(reserved),
            lists: Vec::with_capacity(reserved),
            room,
        };
        registry
    }

    /// The subscribers of `event_type`, where it has any.
    pub fn get(&self, event_type: &Type) -> (found: Option<&Subscribers<Sub>>)
        requires
            self.wf(),
        ensures
            match found {
                Some(list) => list@ == self@[*event_type] && list@.len() > 0,
                None => self@[*event_type].len() == 0,
            },
    {
        match position(&self.keys, event_type) {
            Some(i) => Some(&self.lists[i]),
            None => None,
        }
    }

    /// The number of subscribers of `event_type`.
    pub fn count(&self, event_type: &Type) -> (count: usize)
        requires
            self.wf(),
        ensures
            count == self@[*event_type].len(),
    {
        match self.get(event_type) {
            Some(list) => list.len(),
            None => 0,
        }
    }

    /// Registers `subscriber` for `event_type`, behind those already
    /// registered for it.
    pub fn register<Event, Error>(&mut self, event_type: Type, subscriber: Sub) where
        Event: SubscriberEvent,
        Error: SubscriberError,
        Sub: Subscriber<Event, Error>,

        requires
            old(self).wf(),
        ensures
            final(self).wf(),
            final(self)@ == old(self)@.insert(event_type, old(self)@[event_type].push(subscriber)),
    {
        let ghost before = self@;
        match position(&self.keys, &event_type) {
            Some(i) => {
                self.lists[i].push::<Event, Error>(subscriber);
            },
            None => {
                let ghost keys_before = self.keys@;
                let mut list: Subscribers<Sub> = Subscribers::new(self.room);
                list.push::<Event, Error>(subscriber);
                self.keys.push(event_type);
                self.lists.push(list);
                proof {
                    let longer = before[event_type].push(subscriber);
                    assert forall|kind: Type| #[trigger]
                        self@[kind] == before.insert(event_type, longer)[kind] by {
                        lemma_place_after_push(keys_before, event_type, kind);
                    }
                }
            },
        }
    }
}

} // verus!
