use event_broker::subscriber::{
    position, record, report_of, reserve_for, Subscriber, SubscriberCallback, SubscriberError,
    SubscriberEvent, SubscriberEventType, Subscribers, RESERVE_LIMIT,
};
use std::sync::atomic::{AtomicBool, Ordering};
use std::sync::{Arc, Mutex};

#[derive(Clone, Debug, PartialEq, Eq, Hash)]
enum Topic {
    Red,
    Green,
    Stop,
}

impl SubscriberEventType for Topic {
    fn lemma_eq_is_identity() {}
}

#[derive(Clone, Debug)]
struct Note {
    topic: Topic,
    id: u32,
    tripped: Arc<AtomicBool>,
}

impl Note {
    fn new(topic: Topic, id: u32) -> Self {
        Note { topic, id, tripped: Arc::new(AtomicBool::new(false)) }
    }
}

impl SubscriberEvent for Note {
    type Type = Topic;

    fn is_kill(&self) -> bool {
        self.topic == Topic::Stop
    }

    fn kind(&self) -> Topic {
        self.topic.clone()
    }

    fn should_kill(&self) -> bool {
        self.topic == Topic::Stop
    }

    fn get_type(&self) -> Topic {
        self.topic.clone()
    }

    fn lemma_duplicate_is_exact(_event: Self, _duplicate: Self) {}
}

#[derive(Debug, PartialEq, Eq)]
struct Failure(u32);

impl SubscriberError for Failure {}

struct Guarded {
    callback: Box<dyn Fn(Note) + Send + Sync>,
}

impl Subscriber<Note, Failure> for Guarded {
    fn new<T: SubscriberCallback<Note> + 'static>(callback: T) -> Self {
        Guarded { callback: Box::new(callback) }
    }

    fn notify(&self, event: Note) -> Result<(), Failure> {
        let tripped = event.tripped.clone();
        let id = event.id;
        tripped.store(false, Ordering::SeqCst);
        (self.callback)(event);
        if tripped.swap(false, Ordering::SeqCst) {
            Err(Failure(id))
        } else {
            Ok(())
        }
    }
}

type Log = Arc<Mutex<Vec<(usize, u32)>>>;

fn listener(log: &Log, who: usize, fails_on: Option<u32>) -> Guarded {
    let sink = log.clone();
    Guarded::new(move |note: Note| {
        sink.lock().unwrap().push((who, note.id));
        if fails_on == Some(note.id) {
            note.tripped.store(true, Ordering::SeqCst);
        }
    })
}

#[test]
fn new_list_is_empty() {
    for hint in [0usize, 1, 3, 1024, 1025, usize::MAX] {
        let list: Subscribers<Guarded> = Subscribers::new(hint);
        assert_eq!(list.len(), 0);
        assert!(list.is_empty());
    }
    let list: Subscribers<Guarded> = Subscribers::default();
    assert_eq!(list.len(), 0);
    assert!(list.is_empty());
}

#[test]
fn push_counts_up() {
    let log: Log = Arc::new(Mutex::new(Vec::new()));
    let mut list: Subscribers<Guarded> = Subscribers::new(0);
    for who in 0..5 {
        list.push::<Note, Failure>(listener(&log, who, None));
        assert_eq!(list.len(), who + 1);
        assert!(!list.is_empty());
    }
}

#[test]
fn notify_on_nobody_reports_nothing() {
    let list: Subscribers<Guarded> = Subscribers::new(3);
    let report = list.notify::<Note, Failure>(Note::new(Topic::Red, 1));
    assert!(report.is_none());
}

#[test]
fn notify_reaches_every_subscriber_in_the_order_of_registration() {
    let log: Log = Arc::new(Mutex::new(Vec::new()));
    let mut list: Subscribers<Guarded> = Subscribers::new(3);
    for who in 0..4 {
        list.push::<Note, Failure>(listener(&log, who, None));
    }
    let report = list.notify::<Note, Failure>(Note::new(Topic::Red, 7));
    assert!(report.is_none());
    assert_eq!(*log.lock().unwrap(), vec![(0, 7), (1, 7), (2, 7), (3, 7)]);
}

#[test]
fn notify_with_one_subscriber() {
    let log: Log = Arc::new(Mutex::new(Vec::new()));
    let mut list: Subscribers<Guarded> = Subscribers::default();
    list.push::<Note, Failure>(listener(&log, 0, Some(2)));
    assert!(list.notify::<Note, Failure>(Note::new(Topic::Green, 1)).is_none());
    assert_eq!(list.notify::<Note, Failure>(Note::new(Topic::Green, 2)), Some(vec![Failure(2)]));
    assert_eq!(*log.lock().unwrap(), vec![(0, 1), (0, 2)]);
}

#[test]
fn a_failing_subscriber_does_not_stop_the_others() {
    let log: Log = Arc::new(Mutex::new(Vec::new()));
    let mut list: Subscribers<Guarded> = Subscribers::new(3);
    list.push::<Note, Failure>(listener(&log, 0, Some(5)));
    list.push::<Note, Failure>(listener(&log, 1, None));
    list.push::<Note, Failure>(listener(&log, 2, Some(5)));
    list.push::<Note, Failure>(listener(&log, 3, None));
    let report = list.notify::<Note, Failure>(Note::new(Topic::Red, 5));
    assert_eq!(report, Some(vec![Failure(5), Failure(5)]));
    assert_eq!(*log.lock().unwrap(), vec![(0, 5), (1, 5), (2, 5), (3, 5)]);
    let report = list.notify::<Note, Failure>(Note::new(Topic::Red, 6));
    assert_eq!(report, None);
    assert_eq!(log.lock().unwrap().len(), 8);
}

#[test]
fn report_holds_one_error_for_each_failing_subscriber() {
    let log: Log = Arc::new(Mutex::new(Vec::new()));
    let mut list: Subscribers<Guarded> = Subscribers::new(3);
    for who in 0..6 {
        list.push::<Note, Failure>(listener(&log, who, if who % 2 == 1 { Some(9) } else { None }));
    }
    let report = list.notify::<Note, Failure>(Note::new(Topic::Green, 9));
    assert_eq!(report.map(|errors| errors.len()), Some(3));
}

#[test]
fn record_keeps_errors_only() {
    let mut errors: Vec<Failure> = Vec::new();
    record(&mut errors, Ok(()));
    assert!(errors.is_empty());
    record(&mut errors, Err(Failure(1)));
    record(&mut errors, Ok(()));
    record(&mut errors, Err(Failure(2)));
    assert_eq!(errors, vec![Failure(1), Failure(2)]);
}

#[test]
fn report_of_is_none_without_errors() {
    assert_eq!(report_of(Vec::<Failure>::new()), None);
    assert_eq!(report_of(vec![Failure(4)]), Some(vec![Failure(4)]));
    assert_eq!(report_of(vec![Failure(4), Failure(3)]), Some(vec![Failure(4), Failure(3)]));
}

#[test]
fn reserve_for_is_capped() {
    assert_eq!(RESERVE_LIMIT, 1024);
    assert_eq!(reserve_for(0), 0);
    assert_eq!(reserve_for(3), 3);
    assert_eq!(reserve_for(1024), 1024);
    assert_eq!(reserve_for(1025), 1024);
    assert_eq!(reserve_for(usize::MAX), 1024);
}

#[test]
fn position_finds_a_key_where_it_stands() {
    let keys = vec![Topic::Green, Topic::Stop, Topic::Red];
    assert_eq!(position(&keys, &Topic::Green), Some(0));
    assert_eq!(position(&keys, &Topic::Stop), Some(1));
    assert_eq!(position(&keys, &Topic::Red), Some(2));
    assert_eq!(position(&keys[..2].to_vec(), &Topic::Red), None);
    assert_eq!(position(&Vec::<Topic>::new(), &Topic::Red), None);
}

#[test]
fn position_is_the_first_place_of_a_key() {
    let keys = vec![Topic::Red, Topic::Green, Topic::Red, Topic::Green, Topic::Stop];
    assert_eq!(position(&keys, &Topic::Red), Some(0));
    assert_eq!(position(&keys, &Topic::Green), Some(1));
    assert_eq!(position(&keys, &Topic::Stop), Some(4));
}
