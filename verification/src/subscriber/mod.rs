pub use backlog::{most_recent, Backlog, BACKLOG_CAPACITY};
pub use broker_model::{
    fanned, published, publishes, received, replayed, subscribes_to, BrokerModel, Delivery,
    Request,
};
pub use registry::Registry;
pub use subscriber::Subscriber;
pub use subscriber_callback::SubscriberCallback;
pub use subscriber_config::SubscriberConfig;
pub use subscriber_error::SubscriberError;
pub use subscriber_event::SubscriberEvent;
pub use subscriber_event_type::{
    distinct, lemma_place_after_push, place_of, position, SubscriberEventType,
};
pub use subscriber_server::{
    attempts, registered, SubscriberServer, BACKLOG_TYPES, REGISTRY_TYPES,
};
pub use subscribers::{
    failures, fan_out, lemma_failures_push, record, report_of, reported, reserve_for,
    Subscribers, RESERVE_LIMIT,
};

pub mod broker_laws;

mod backlog;
mod broker_model;
mod registry;
mod subscriber;
mod subscriber_callback;
mod subscriber_config;
mod subscriber_error;
mod subscriber_event;
mod subscriber_event_type;
mod subscriber_server;
mod subscribers;
