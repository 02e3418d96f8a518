//! A typed publish/subscribe broker for a message relay.
//!
//! Producers turn messages into events; each event belongs to one type.
//! Consumers subscribe to a type and are handed every event of that type:
//! first those that were published while nobody had subscribed to it, as far
//! as the backlog has kept them, then those that follow.
//!
//! [`subscriber::SubscriberServer`] is the broker. It takes one
//! [`subscriber::Request`] at a time; what it is after a request, and whom it
//! hands what, is given by [`subscriber::BrokerModel`], and
//! [`subscriber::broker_laws`] states what follows from that for whole runs.
//! The broker calls subscribers and nothing else: channels, tasks and logging
//! are for the program that runs it.

pub mod ffi;
pub mod subscriber;
mod events;
mod relay;

pub use events::{
    lemma_code_round_trip, shielded, ErrorKind, SConfig, SError, SEvent, SEventType,
};
pub use relay::{classified, classify, relay, starts_with, Message, ReceiveError};
