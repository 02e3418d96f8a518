//! From messages to events: what the relay publishes for what it receives.

use crate::events::SEvent;
use vstd::prelude::*;
use vstd::std_specs::iter::IteratorSpec;

verus! {

/// A message as it travels through the relay.
#[derive(Debug)]
pub struct Message {
    pub message: String,
}

impl Clone for Message {
    fn clone(&self) -> (duplicate: Self)
        ensures
            duplicate == *self,
    {
        Message { message: self.message.clone() }
    }
}

/// Why the relay could not take a message from its client.
#[derive(Clone, Copy, Debug, PartialEq, Eq, Structural)]
pub enum ReceiveError {
    /// Every sender is gone.
    Closed,
    /// The receiver fell behind, and this many messages were lost to it.
    Lagged(u64),
}

/// Whether `text` begins with `prefix`.
pub fn starts_with(text: &str, prefix: &str) -> (found: bool)
    ensures
        found == prefix@.is_prefix_of(text@),
{
    let mut rest = text.chars();
    let mut wanted = prefix.chars();
    let ghost mut i: int = 0;
    loop
        invariant
            0 <= i <= prefix@.len(),
            i <= text@.len(),
            wanted.remaining() == prefix@.subrange(i, prefix@.len() as int),
            rest.remaining() == text@.subrange(i, text@.len() as int),
            prefix@.subrange(0, i) == text@.subrange(0, i),
        decreases prefix@.len() - i,
    {
        match wanted.next() {
            None => {
                return true;
            },
            Some(expected) => {
                match rest.next() {
                    None => {
                        return false;
                    },
                    Some(given) => {
                        if given != expected {
                            return false;
                        }
                        proof {
                            i = i + 1;
                        }
                    },
                }
            },
        }
    }
}

/// The event that a message becomes: one of the first kind where it begins
/// with `test`, else one of the second kind. The message is the payload.
pub open spec fn classified(message: String) -> SEvent {
    if "test"@.is_prefix_of(message@) {
        SEvent::Event1(message)
    } else {
        SEvent::Event2(message)
    }
}

/// Turns a message into the event that it stands for.
pub fn classify(message: String) -> (event: SEvent)
    ensures
        event == classified(message),
{
    if starts_with(message.as_str(), "test") {
        SEvent::Event1(message)
    } else {
        SEvent::Event2(message)
    }
}

/// What the relay publishes for what it got from its client: the event of a
/// message, and the kill signal, once, where receiving failed.
pub fn relay(received: Result<Message, ReceiveError>) -> (event: SEvent)
    ensures
        event == match received {
            Ok(message) => classified(message.message),
            Err(_) => SEvent::Kill,
        },
{
    match received {
        Ok(message) => classify(message.message),
        Err(_) => SEvent::Kill,
    }
}

} // verus!
