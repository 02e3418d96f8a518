use event_broker::subscriber::{
    Request, Subscriber, SubscriberCallback, SubscriberConfig, SubscriberError, SubscriberEvent,
    SubscriberEventType, SubscriberServer,
};
use event_broker::SConfig;
use std::sync::atomic::{AtomicBool, Ordering};
use std::sync::{Arc, Mutex};

#[derive(Clone, Debug, PartialEq, Eq, Hash)]
enum Topic {
    Red,
    Green,
    Stop,
}

impl SubscriberEventType for Topic {
    fn lemma_eq_is_identity() {}
}

#[derive(Clone, Debug)]
struct Note {
    topic: Topic,
    id: u32,
    tripped: Arc<AtomicBool>,
}

fn note(topic: Topic, id: u32) -> Note {
    Note { topic, id, tripped: Arc::new(AtomicBool::new(false)) }
}

impl SubscriberEvent for Note {
    type Type = Topic;

    fn is_kill(&self) -> bool {
        self.topic == Topic::Stop
    }

    fn kind(&self) -> Topic {
        self.topic.clone()
    }

    fn should_kill(&self) -> bool {
        self.topic == Topic::Stop
    }

    fn get_type(&self) -> Topic {
        self.topic.clone()
    }

    fn lemma_duplicate_is_exact(_event: Self, _duplicate: Self) {}
}

#[derive(Debug, PartialEq, Eq)]
struct Failure(u32);

impl SubscriberError for Failure {}

struct Guarded {
    callback: Box<dyn Fn(Note) + Send + Sync>,
}

impl Subscriber<Note, Failure> for Guarded {
    fn new<T: SubscriberCallback<Note> + 'static>(callback: T) -> Self {
        Guarded { callback: Box::new(callback) }
    }

    fn notify(&self, event: Note) -> Result<(), Failure> {
        let tripped = event.tripped.clone();
        let id = event.id;
        tripped.store(false, Ordering::SeqCst);
        (self.callback)(event);
        if tripped.swap(false, Ordering::SeqCst) {
            Err(Failure(id))
        } else {
            Ok(())
        }
    }
}

type Broker = SubscriberServer<Topic, Note, SConfig, Guarded>;
type Callback = Box<dyn Fn(Note) + Send + Sync>;
type Log = Arc<Mutex<Vec<(usize, u32)>>>;

fn new_log() -> Log {
    Arc::new(Mutex::new(Vec::new()))
}

fn listener(log: &Log, who: usize, fails_on: Option<u32>) -> Callback {
    let sink = log.clone();
    Box::new(move |event: Note| {
        sink.lock().unwrap().push((who, event.id));
        if fails_on == Some(event.id) {
            event.tripped.store(true, Ordering::SeqCst);
        }
    })
}

fn publish(broker: &mut Broker, topic: Topic, id: u32) -> Vec<Failure> {
    broker.step::<Callback, Failure>(Request::Publish(note(topic, id)))
}

fn subscribe(broker: &mut Broker, topic: Topic, callback: Callback) -> Vec<Failure> {
    broker.step::<Callback, Failure>(Request::Subscribe(topic, callback))
}

fn heard_by(log: &Log, who: usize) -> Vec<u32> {
    log.lock().unwrap().iter().filter(|entry| entry.0 == who).map(|entry| entry.1).collect()
}

#[test]
fn new_broker_runs_and_holds_nothing() {
    let broker: Broker = SubscriberServer::new(SConfig::default());
    assert!(broker.is_running());
    for topic in [Topic::Red, Topic::Green, Topic::Stop] {
        assert_eq!(broker.pending(&topic), 0);
        assert_eq!(broker.subscriber_count(&topic), 0);
    }
    let other: Broker = SubscriberServer::default();
    assert!(other.is_running());
    assert_eq!(other.pending(&Topic::Red), 0);
}

#[test]
fn broker_keeps_its_config() {
    let mut broker: Broker = SubscriberServer::new(SConfig::new(5, 6));
    assert_eq!(broker.config().channel_size(), 5);
    assert_eq!(broker.config().subscriber_count(), 6);
    publish(&mut broker, Topic::Red, 1);
    publish(&mut broker, Topic::Stop, 2);
    assert_eq!(broker.config().channel_size(), 5);
    assert_eq!(broker.config().subscriber_count(), 6);
}

#[test]
fn one_backlogged_event_is_handed_over_once() {
    let mut broker: Broker = SubscriberServer::new(SConfig::default());
    assert!(publish(&mut broker, Topic::Red, 65).is_empty());
    assert_eq!(broker.pending(&Topic::Red), 1);
    assert_eq!(broker.subscriber_count(&Topic::Red), 0);
    let log = new_log();
    assert!(subscribe(&mut broker, Topic::Red, listener(&log, 0, None)).is_empty());
    assert_eq!(*log.lock().unwrap(), vec![(0, 65)]);
    assert_eq!(broker.pending(&Topic::Red), 0);
    assert_eq!(broker.subscriber_count(&Topic::Red), 1);
    assert!(broker.is_running());
}

#[test]
fn eleven_publishes_drop_the_first() {
    let mut broker: Broker = SubscriberServer::new(SConfig::default());
    for id in 1..=11 {
        assert!(publish(&mut broker, Topic::Green, id).is_empty());
    }
    assert_eq!(broker.pending(&Topic::Green), 10);
    let log = new_log();
    subscribe(&mut broker, Topic::Green, listener(&log, 0, None));
    assert_eq!(heard_by(&log, 0), (2..=11).collect::<Vec<u32>>());
}

#[test]
fn unsubscribed_type_keeps_the_most_recent_ten() {
    for count in 0..=25u32 {
        let mut broker: Broker = SubscriberServer::new(SConfig::new(3, 1));
        for id in 0..count {
            publish(&mut broker, Topic::Red, id);
        }
        assert_eq!(broker.pending(&Topic::Red), count.min(10) as usize);
        assert_eq!(broker.pending(&Topic::Green), 0);
        let log = new_log();
        subscribe(&mut broker, Topic::Red, listener(&log, 0, None));
        assert_eq!(heard_by(&log, 0), (count.saturating_sub(10)..count).collect::<Vec<u32>>());
        assert_eq!(broker.pending(&Topic::Red), 0);
    }
}

#[test]
fn backlog_comes_before_what_is_published_later() {
    for kept in 0..=10u32 {
        let mut broker: Broker = SubscriberServer::new(SConfig::default());
        for id in 0..kept {
            publish(&mut broker, Topic::Red, id);
        }
        let log = new_log();
        subscribe(&mut broker, Topic::Red, listener(&log, 0, None));
        assert_eq!(heard_by(&log, 0), (0..kept).collect::<Vec<u32>>());
        for id in 100..105 {
            publish(&mut broker, Topic::Red, id);
            assert_eq!(broker.pending(&Topic::Red), 0);
        }
        let expected: Vec<u32> = (0..kept).chain(100..105).collect();
        assert_eq!(heard_by(&log, 0), expected);
    }
}

#[test]
fn a_later_subscriber_hears_only_what_comes_after() {
    let mut broker: Broker = SubscriberServer::new(SConfig::default());
    publish(&mut broker, Topic::Red, 1);
    publish(&mut broker, Topic::Red, 2);
    let log = new_log();
    subscribe(&mut broker, Topic::Red, listener(&log, 0, None));
    publish(&mut broker, Topic::Red, 3);
    subscribe(&mut broker, Topic::Red, listener(&log, 1, None));
    publish(&mut broker, Topic::Red, 4);
    assert_eq!(heard_by(&log, 0), vec![1, 2, 3, 4]);
    assert_eq!(heard_by(&log, 1), vec![4]);
    assert_eq!(*log.lock().unwrap(), vec![(0, 1), (0, 2), (0, 3), (0, 4), (1, 4)]);
    assert_eq!(broker.subscriber_count(&Topic::Red), 2);
}

#[test]
fn types_do_not_mix() {
    let mut broker: Broker = SubscriberServer::new(SConfig::default());
    let log = new_log();
    subscribe(&mut broker, Topic::Red, listener(&log, 0, None));
    publish(&mut broker, Topic::Green, 10);
    publish(&mut broker, Topic::Red, 11);
    publish(&mut broker, Topic::Green, 12);
    assert_eq!(heard_by(&log, 0), vec![11]);
    assert_eq!(broker.pending(&Topic::Green), 2);
    assert_eq!(broker.pending(&Topic::Red), 0);
    subscribe(&mut broker, Topic::Green, listener(&log, 1, None));
    assert_eq!(heard_by(&log, 1), vec![10, 12]);
    assert_eq!(heard_by(&log, 0), vec![11]);
}

#[test]
fn kill_ends_the_broker_and_is_neither_kept_nor_delivered() {
    let mut broker: Broker = SubscriberServer::new(SConfig::default());
    let log = new_log();
    subscribe(&mut broker, Topic::Stop, listener(&log, 0, None));
    subscribe(&mut broker, Topic::Red, listener(&log, 1, None));
    publish(&mut broker, Topic::Green, 1);
    assert!(publish(&mut broker, Topic::Stop, 99).is_empty());
    assert!(!broker.is_running());
    assert!(log.lock().unwrap().is_empty());
    assert_eq!(broker.pending(&Topic::Stop), 0);
    assert_eq!(broker.pending(&Topic::Green), 1);
    assert_eq!(broker.pending(&Topic::Red), 0);
}

#[test]
fn kill_without_subscribers_is_not_kept() {
    let mut broker: Broker = SubscriberServer::new(SConfig::default());
    publish(&mut broker, Topic::Stop, 1);
    assert!(!broker.is_running());
    for topic in [Topic::Red, Topic::Green, Topic::Stop] {
        assert_eq!(broker.pending(&topic), 0);
    }
}

#[test]
fn an_ended_broker_takes_nothing() {
    let mut broker: Broker = SubscriberServer::new(SConfig::default());
    let log = new_log();
    subscribe(&mut broker, Topic::Red, listener(&log, 0, None));
    publish(&mut broker, Topic::Green, 1);
    publish(&mut broker, Topic::Stop, 2);
    assert!(publish(&mut broker, Topic::Red, 3).is_empty());
    assert!(publish(&mut broker, Topic::Green, 4).is_empty());
    assert!(subscribe(&mut broker, Topic::Green, listener(&log, 1, None)).is_empty());
    assert!(broker.step::<Callback, Failure>(Request::Closed).is_empty());
    assert!(log.lock().unwrap().is_empty());
    assert!(!broker.is_running());
    assert_eq!(broker.pending(&Topic::Green), 1);
    assert_eq!(broker.subscriber_count(&Topic::Green), 0);
    assert_eq!(broker.subscriber_count(&Topic::Red), 1);
}

#[test]
fn closed_channels_end_the_broker() {
    let mut broker: Broker = SubscriberServer::new(SConfig::default());
    publish(&mut broker, Topic::Red, 1);
    assert!(broker.step::<Callback, Failure>(Request::Closed).is_empty());
    assert!(!broker.is_running());
    assert_eq!(broker.pending(&Topic::Red), 1);
}

#[test]
fn every_subscriber_hears_every_event_in_the_order_of_publishing() {
    for subscribers in 1..=4usize {
        let mut broker: Broker = SubscriberServer::new(SConfig::default());
        let log = new_log();
        for who in 0..subscribers {
            subscribe(&mut broker, Topic::Green, listener(&log, who, None));
        }
        for id in 0..6 {
            assert!(publish(&mut broker, Topic::Green, id).is_empty());
        }
        for who in 0..subscribers {
            assert_eq!(heard_by(&log, who), (0..6).collect::<Vec<u32>>());
        }
        assert_eq!(log.lock().unwrap().len(), subscribers * 6);
        assert_eq!(broker.pending(&Topic::Green), 0);
    }
}

#[test]
fn a_failing_subscriber_does_not_keep_an_event_from_the_others() {
    let mut broker: Broker = SubscriberServer::new(SConfig::default());
    let log = new_log();
    subscribe(&mut broker, Topic::Red, listener(&log, 0, None));
    subscribe(&mut broker, Topic::Red, listener(&log, 1, Some(3)));
    subscribe(&mut broker, Topic::Red, listener(&log, 2, None));
    for id in 1..=5 {
        let report = publish(&mut broker, Topic::Red, id);
        if id == 3 {
            assert_eq!(report, vec![Failure(3)]);
        } else {
            assert!(report.is_empty());
        }
    }
    for who in 0..3 {
        assert_eq!(heard_by(&log, who), vec![1, 2, 3, 4, 5]);
    }
    assert!(broker.is_running());
}

#[test]
fn failures_are_reported_in_the_order_of_the_subscribers() {
    let mut broker: Broker = SubscriberServer::new(SConfig::default());
    let log = new_log();
    for who in 0..5 {
        let fails_on = if who != 2 { Some(8) } else { None };
        subscribe(&mut broker, Topic::Red, listener(&log, who, fails_on));
    }
    assert_eq!(publish(&mut broker, Topic::Red, 8).len(), 4);
    assert_eq!(*log.lock().unwrap(), vec![(0, 8), (1, 8), (2, 8), (3, 8), (4, 8)]);
}

#[test]
fn a_failure_during_replay_is_reported_and_the_subscriber_stays() {
    let mut broker: Broker = SubscriberServer::new(SConfig::default());
    for id in 1..=4 {
        publish(&mut broker, Topic::Green, id);
    }
    let log = new_log();
    let report = subscribe(&mut broker, Topic::Green, listener(&log, 0, Some(2)));
    assert_eq!(report, vec![Failure(2)]);
    assert_eq!(heard_by(&log, 0), vec![1, 2, 3, 4]);
    assert_eq!(broker.pending(&Topic::Green), 0);
    assert_eq!(broker.subscriber_count(&Topic::Green), 1);
    assert!(publish(&mut broker, Topic::Green, 5).is_empty());
    assert_eq!(heard_by(&log, 0), vec![1, 2, 3, 4, 5]);
}

#[test]
fn subscribing_to_the_kill_type_hears_nothing() {
    let mut broker: Broker = SubscriberServer::new(SConfig::default());
    let log = new_log();
    assert!(subscribe(&mut broker, Topic::Stop, listener(&log, 0, None)).is_empty());
    assert_eq!(broker.subscriber_count(&Topic::Stop), 1);
    publish(&mut broker, Topic::Red, 1);
    publish(&mut broker, Topic::Stop, 2);
    assert!(log.lock().unwrap().is_empty());
}

fn next(state: &mut u64) -> u64 {
    *state = state.wrapping_mul(6364136223846793005).wrapping_add(1442695040888963407);
    *state >> 33
}

#[test]
fn broker_agrees_with_a_plain_account_of_it() {
    for seed in 0..40u64 {
        let mut state = seed.wrapping_mul(2654435761).wrapping_add(17);
        let config = SConfig::new((seed % 14) as u32, (seed % 3) as u32);
        let mut broker: Broker = SubscriberServer::new(config);
        let log = new_log();
        let topics = [Topic::Red, Topic::Green];
        let mut kept: Vec<Vec<u32>> = vec![Vec::new(), Vec::new()];
        let mut members: Vec<Vec<usize>> = vec![Vec::new(), Vec::new()];
        let mut expected: Vec<(usize, u32)> = Vec::new();
        let mut running = true;
        let mut listeners = 0usize;
        for id in 0..120u32 {
            let which = (next(&mut state) % 2) as usize;
            let roll = next(&mut state) % 100;
            if roll < 70 {
                let report = publish(&mut broker, topics[which].clone(), id);
                assert!(report.is_empty());
                if running {
                    if members[which].is_empty() {
                        kept[which].push(id);
                        if kept[which].len() > 10 {
                            kept[which].remove(0);
                        }
                    } else {
                        for who in members[which].iter() {
                            expected.push((*who, id));
                        }
                    }
                }
            } else if roll < 96 {
                let who = listeners;
                listeners += 1;
                subscribe(&mut broker, topics[which].clone(), listener(&log, who, None));
                if running {
                    for event in kept[which].drain(..) {
                        expected.push((who, event));
                    }
                    members[which].push(who);
                }
            } else if roll < 98 {
                publish(&mut broker, Topic::Stop, id);
                running = false;
            } else {
                broker.step::<Callback, Failure>(Request::Closed);
                running = false;
            }
            assert_eq!(broker.is_running(), running);
            assert_eq!(*log.lock().unwrap(), expected);
            for (place, topic) in topics.iter().enumerate() {
                assert_eq!(broker.pending(topic), kept[place].len());
                assert_eq!(broker.subscriber_count(topic), members[place].len());
            }
            assert_eq!(broker.pending(&Topic::Stop), 0);
        }
    }
}
