//! The events that wait for the first subscriber of their type.

use crate::subscriber::{
    distinct, lemma_place_after_push, place_of, position, reserve_for, SubscriberEventType,
};
use std::collections::VecDeque;
use vstd::prelude::*;

verus! {

/// The most events that are kept for one type while nobody subscribes to it.
pub const BACKLOG_CAPACITY: usize = 10;

/// The last `capacity` of `events`, or all of them where there are no more.
pub open spec fn most_recent<Event>(events: Seq<Event>, capacity: nat) -> Seq<Event> {
    if events.len() <= capacity {
        events
    } else {
        events.subrange(events.len() - capacity, events.len() as int)
    }
}

/// For each type, the events that were published while it had no subscriber:
/// a queue that keeps the most recent `BACKLOG_CAPACITY` of them, oldest first.
pub struct Backlog<Type, Event> {
    keys: Vec<Type>,
    queues: Vec<VecDeque<Event>>,
}

impl<Type, Event> View for Backlog<Type, Event> {
    type V = Map<Type, Seq<Event>>;

    /// The events kept for each type, oldest first; none for a type that no
    /// event was kept for.
    closed spec fn view(&self) -> Map<Type, Seq<Event>> {
        Map::total(
            |kind: Type|
                match place_of(self.keys@, kind) {
                    Some(i) => self.queues@[i]@,
                    None => Seq::empty(),
                },
        )
    }
}

impl<Type: SubscriberEventType, Event> Backlog<Type, Event> {
    /// Every type has one queue at most, and no queue is over capacity.
    pub closed spec fn wf(&self) -> bool {
        &&& self.keys@.len() == self.queues@.len()
        &&& distinct(self.keys@)
        &&& forall|i: int|
            0 <= i < self.queues@.len() ==> (#[trigger] self.queues@[i])@.len()
                <= BACKLOG_CAPACITY
    }

    /// The view gives every type a queue, and none over capacity.
    pub proof fn lemma_bounded(&self)
        requires
            self.wf(),
        ensures
            forall|kind: Type| self@.dom().contains(kind),
            forall|kind: Type| (#[trigger] self@[kind]).len() <= BACKLOG_CAPACITY,
    {
    }

    /// A backlog that holds nothing, with room for `types` types.
    pub fn new(types: usize) -> (backlog: Self)
        ensures
            backlog.wf(),
            backlog@ == Map::<Type, Seq<Event>>::total(|kind: Type| Seq::<Event>::empty()),
    {
        let room = reserve_for(types);
        let backlog = Self { keys: Vec::with_capacity(room), queues: Vec::with_capacity(room) };
        backlog
    }

    /// The number of events kept for `event_type`.
    pub fn pending(&self, event_type: &Type) -> (count: usize)
        requires
            self.wf(),
        ensures
            count == self@[*event_type].len(),
            count <= BACKLOG_CAPACITY,
    {
        match position(&self.keys, event_type) {
            Some(i) => self.queues[i].len(),
            None => 0,
        }
    }

    /// Keeps `event` as the newest of its type. Where the queue is full, the
    /// oldest event of that type is dropped to make room.
    ///
    /// `room` is the number of events to reserve room for where the type gets
    /// its queue with this call; no more is reserved than the queue can hold.
    pub fn push(&mut self, event_type: Type, event: Event, room: usize)
        requires
            old(self).wf(),
        ensures
            final(self).wf(),
            final(self)@ == old(self)@.insert(
                event_type,
                most_recent(old(self)@[event_type].push(event), BACKLOG_CAPACITY as nat),
            ),
    {
        let ghost before = self@;
        match position(&self.keys, &event_type) {
            Some(i) => {
                let queue = &mut self.queues[i];
                if queue.len() >= BACKLOG_CAPACITY {
                    let _dropped = queue.pop_front();
                }
                queue.push_back(event);
                proof {
                    let kept = most_recent(before[event_type].push(event), BACKLOG_CAPACITY as nat);
                    assert(self.queues@[i as int]@ =~= kept);
                }
            },
            None => {
                let ghost keys_before = self.keys@;
                let reserved = if room <= BACKLOG_CAPACITY {
                    room
                } else {
                    BACKLOG_CAPACITY
                };
                let mut queue: VecDeque<Event> = VecDeque::with_capacity(reserved);
                queue.push_back(event);
                self.keys.push(event_type);
                self.queues.push(queue);
                proof {
                    let kept = most_recent(before[event_type].push(event), BACKLOG_CAPACITY as nat);
                    assert forall|kind: Type| #[trigger]
                        self@[kind] == before.insert(event_type, kept)[kind] by {
                        lemma_place_after_push(keys_before, event_type, kind);
                    }
                }
            },
        }
    }

    /// Takes out the events kept for `event_type`, oldest first, and leaves
    /// none of that type behind.
    pub fn drain(&mut self, event_type: &Type) -> (drained: VecDeque<Event>)
        requires
            old(self).wf(),
        ensures
            final(self).wf(),
            drained@ == old(self)@[*event_type],
            final(self)@ == old(self)@.insert(*event_type, Seq::empty()),
    {
        let mut drained: VecDeque<Event> = VecDeque::new();
        match position(&self.keys, event_type) {
            Some(i) => {
                std::mem::swap(&mut self.queues[i], &mut drained);
            },
            None => {},
        }
        drained
    }
}

} // verus!
