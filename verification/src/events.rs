//! The events, types, configuration and errors of the relay.

use crate::subscriber::{SubscriberConfig, SubscriberError, SubscriberEvent, SubscriberEventType};
use vstd::prelude::*;
use vstd::string::StringExecFns;
use vstd::std_specs::cmp::PartialEqSpecImpl;
use vstd::std_specs::convert::{FromSpecImpl, TryFromSpecImpl};

verus! {

/// What went wrong, by the part that failed.
#[derive(Clone, Copy, Debug, PartialEq, Eq, Structural)]
pub enum ErrorKind {
    /// The actor at the other end of a channel has ended.
    ChannelClosed,
    /// The runtime would not wait for room in a channel.
    SendRejected,
    /// A subscriber's callback ended abnormally.
    CallbackFailure,
    /// The configuration that a broker was to be built with is malformed.
    ConfigInvalid,
    /// A type was asked for that is not one of the enumerated types.
    UnknownType,
}

/// An error of the relay: its kind, and words for whoever reads the log.
#[derive(Debug)]
pub struct SError {
    kind: ErrorKind,
    message: String,
}

impl SubscriberError for SError {
}

impl SError {
    /// The kind of this error.
    pub closed spec fn spec_kind(&self) -> ErrorKind {
        self.kind
    }

    /// The words of this error.
    pub closed spec fn text(&self) -> Seq<char> {
        self.message@
    }

    /// An error of the given kind with the given words.
    pub fn new(kind: ErrorKind, message: String) -> (error: Self)
        ensures
            error.spec_kind() == kind,
            error.text() == message@,
    {
        Self { kind, message }
    }

    /// The error of a callback that ended abnormally; `detail` says how it
    /// ended.
    pub fn callback_failure(detail: &str) -> (error: Self)
        ensures
            error.spec_kind() == ErrorKind::CallbackFailure,
            error.text() == "Error while calling callback: "@ + detail@,
    {
        Self {
            kind: ErrorKind::CallbackFailure,
            message: "Error while calling callback: ".to_owned().concat(detail),
        }
    }

    /// The kind of this error.
    #[verifier::when_used_as_spec(spec_kind)]
    pub fn kind(&self) -> (kind: ErrorKind)
        ensures
            kind == self.spec_kind(),
    {
        self.kind
    }

    /// The words of this error.
    pub fn message(&self) -> (message: String)
        ensures
            message@ == self.text(),
    {
        self.message.clone()
    }
}

/// What a subscriber that shields its callback returns for a delivery.
///
/// `caught` is how the callback ended under the shield: `Ok` where it
/// returned, else words for what ended it. A callback that ended abnormally
/// is a failed delivery, and nothing more: the error stays with this call.
pub fn shielded(caught: Result<(), String>) -> (outcome: Result<(), SError>)
    ensures
        match caught {
            Ok(_) => outcome is Ok,
            Err(detail) => {
                &&& outcome matches Err(error)
                &&& error.spec_kind() == ErrorKind::CallbackFailure
                &&& error.text() == "Error while calling callback: "@ + detail@
            },
        },
{
    match caught {
        Ok(_) => Ok(()),
        Err(detail) => Err(SError::callback_failure(detail.as_str())),
    }
}

/// The events of the relay: two kinds of message, and the signal that ends
/// the broker.
#[derive(Debug)]
pub enum SEvent {
    Event1(String),
    Event2(String),
    Kill,
}

impl Clone for SEvent {
    fn clone(&self) -> (duplicate: Self)
        ensures
            duplicate == *self,
    {
        match self {
            SEvent::Event1(payload) => SEvent::Event1(payload.clone()),
            SEvent::Event2(payload) => SEvent::Event2(payload.clone()),
            SEvent::Kill => SEvent::Kill,
        }
    }
}

impl SubscriberEvent for SEvent {
    type Type = SEventType;

    open spec fn is_kill(&self) -> bool {
        *self is Kill
    }

    open spec fn kind(&self) -> SEventType {
        match *self {
            SEvent::Event1(_) => SEventType::EventType1,
            SEvent::Event2(_) => SEventType::EventType2,
            SEvent::Kill => SEventType::EventTypeKill,
        }
    }

    fn should_kill(&self) -> (kill: bool) {
        matches!(self, SEvent::Kill)
    }

    fn get_type(&self) -> (kind: SEventType) {
        match self {
            SEvent::Event1(_) => SEventType::EventType1,
            SEvent::Event2(_) => SEventType::EventType2,
            SEvent::Kill => SEventType::EventTypeKill,
        }
    }

    proof fn lemma_duplicate_is_exact(event: Self, duplicate: Self) {
    }
}

/// The types of the relay's events.
#[derive(Hash, Debug)]
pub enum SEventType {
    /// The type of the first kind of message; its code is 0.
    EventType1,
    /// The type of the second kind of message; its code is 1.
    EventType2,
    /// The type of the kill signal; its code is 2.
    EventTypeKill,
}

impl Clone for SEventType {
    fn clone(&self) -> (duplicate: Self)
        ensures
            duplicate == *self,
    {
        match self {
            SEventType::EventType1 => SEventType::EventType1,
            SEventType::EventType2 => SEventType::EventType2,
            SEventType::EventTypeKill => SEventType::EventTypeKill,
        }
    }
}

impl PartialEq for SEventType {
    fn eq(&self, other: &Self) -> (same: bool) {
        match (self, other) {
            (SEventType::EventType1, SEventType::EventType1) => true,
            (SEventType::EventType2, SEventType::EventType2) => true,
            (SEventType::EventTypeKill, SEventType::EventTypeKill) => true,
            _ => false,
        }
    }
}

impl PartialEqSpecImpl for SEventType {
    open spec fn obeys_eq_spec() -> bool {
        true
    }

    open spec fn eq_spec(&self, other: &Self) -> bool {
        *self == *other
    }
}

impl Eq for SEventType {
}

impl SubscriberEventType for SEventType {
    proof fn lemma_eq_is_identity() {
    }
}

impl SEventType {
    pub const EVENT_1: u16 = 0x0;

    pub const EVENT_2: u16 = 0x1;

    pub const EVENT_KILL: u16 = 0x2;

    /// The number that stands for this type.
    pub open spec fn code(self) -> u16 {
        match self {
            SEventType::EventType1 => 0x0,
            SEventType::EventType2 => 0x1,
            SEventType::EventTypeKill => 0x2,
        }
    }

    /// The type that `n` stands for, if it stands for one.
    pub open spec fn of_code(n: u16) -> Option<SEventType> {
        if n == 0x0 {
            Some(SEventType::EventType1)
        } else if n == 0x1 {
            Some(SEventType::EventType2)
        } else if n == 0x2 {
            Some(SEventType::EventTypeKill)
        } else {
            None
        }
    }

    /// The name of this type.
    pub fn name(&self) -> (name: String)
        ensures
            name@ == match *self {
                SEventType::EventType1 => "EventType1"@,
                SEventType::EventType2 => "EventType2"@,
                SEventType::EventTypeKill => "EventTypeKill"@,
            },
    {
        match self {
            SEventType::EventType1 => "EventType1".to_owned(),
            SEventType::EventType2 => "EventType2".to_owned(),
            SEventType::EventTypeKill => "EventTypeKill".to_owned(),
        }
    }
}

/// Every type is the type that its code stands for, and a number stands for a
/// type only if it is that type's code.
pub proof fn lemma_code_round_trip(kind: SEventType, n: u16)
    ensures
        SEventType::of_code(kind.code()) == Some(kind),
        SEventType::of_code(n) matches Some(found) ==> found.code() == n,
{
}

impl TryFrom<u16> for SEventType {
    type Error = SError;

    /// The type that `n` stands for; a number that stands for none is refused
    /// as an unknown type.
    fn try_from(n: u16) -> (found: Result<Self, SError>)
        ensures
            match SEventType::of_code(n) {
                Some(kind) => found == Ok::<SEventType, SError>(kind),
                None => found matches Err(error) && error.spec_kind() == ErrorKind::UnknownType
                    && error.text() == "Not a valid Event type"@,
            },
    {
        if n == SEventType::EVENT_1 {
            Ok(SEventType::EventType1)
        } else if n == SEventType::EVENT_2 {
            Ok(SEventType::EventType2)
        } else if n == SEventType::EVENT_KILL {
            Ok(SEventType::EventTypeKill)
        } else {
            Err(SError::new(ErrorKind::UnknownType, "Not a valid Event type".to_owned()))
        }
    }
}

/// What `try_from` returns is stated on `try_from` itself: its error holds
/// words, and no specification can say which `String` holds them.
impl TryFromSpecImpl<u16> for SEventType {
    open spec fn obeys_try_from_spec() -> bool {
        false
    }

    open spec fn try_from_spec(n: u16) -> Result<Self, SError> {
        match SEventType::of_code(n) {
            Some(kind) => Ok(kind),
            None => Err(arbitrary()),
        }
    }
}

impl From<SEventType> for u16 {
    fn from(event_type: SEventType) -> (code: u16) {
        match event_type {
            SEventType::EventType1 => SEventType::EVENT_1,
            SEventType::EventType2 => SEventType::EVENT_2,
            SEventType::EventTypeKill => SEventType::EVENT_KILL,
        }
    }
}

impl FromSpecImpl<SEventType> for u16 {
    open spec fn obeys_from_spec() -> bool {
        true
    }

    open spec fn from_spec(event_type: SEventType) -> u16 {
        event_type.code()
    }
}

/// The sizes that the relay's broker is built with.
#[derive(Debug)]
pub struct SConfig {
    channel_size: u32,
    sub_count: u32,
}

impl SConfig {
    /// A configuration with the given sizes.
    pub fn new(channel_size: u32, sub_count: u32) -> (config: Self)
        ensures
            config.channel_hint() == channel_size,
            config.subscriber_hint() == sub_count,
    {
        Self { channel_size, sub_count }
    }
}

impl SubscriberConfig for SConfig {
    closed spec fn subscriber_hint(&self) -> usize {
        self.sub_count as usize
    }

    closed spec fn channel_hint(&self) -> usize {
        self.channel_size as usize
    }

    fn subscriber_count(&self) -> (count: usize) {
        self.sub_count as usize
    }

    fn channel_size(&self) -> (size: usize) {
        self.channel_size as usize
    }
}

impl Default for SConfig {
    /// Room for 1024 events and one subscriber.
    fn default() -> (config: Self)
        ensures
            config.channel_hint() == 1024,
            config.subscriber_hint() == 1,
    {
        Self { channel_size: 1024, sub_count: 1 }
    }
}

} // verus!
