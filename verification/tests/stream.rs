use std::cell::RefCell;
use std::rc::Rc;

use tonerre::extract::Raw;
use tonerre::message::{Message, StreamError};
use tonerre::subscriber::{listen_outcome, ListenError, Subscriber};
use tonerre::topic_handler::{handler, DefaultPicker, ExtractHandler, SkipFaultsPicker, Work};

type Log = Rc<RefCell<Vec<String>>>;

struct RecordRaw;

impl Work<Raw, Log> for RecordRaw {
    fn run(&self, value: Raw, state: &Log) {
        let payload = value.0.payload.clone().unwrap_or_default();
        state.borrow_mut().push(String::from_utf8_lossy(&payload).to_string());
    }
}

fn msg(topic: &str, payload: &[u8]) -> Message {
    Message {
        topic: topic.to_string(),
        partition: 0,
        offset: 0,
        payload: Some(payload.to_vec()),
    }
}

fn raw_subscriber(
    log: &Log,
    topic: &str,
) -> tonerre::subscriber::InnerSubscriber<Log, ExtractHandler<Raw, RecordRaw>, DefaultPicker> {
    let mut sub: Subscriber<Log, ExtractHandler<Raw, RecordRaw>, DefaultPicker> =
        Subscriber::new(log.clone());
    sub.subscribe(topic, vec![handler(RecordRaw)]);
    sub.complete()
}

#[test]
fn default_picker_forwards_in_arrival_order() {
    let log = Rc::new(RefCell::new(Vec::new()));
    let inner = raw_subscriber(&log, "orders");

    let events: Vec<Result<Message, StreamError>> = vec![
        Ok(msg("orders", b"one")),
        Ok(msg("orders", b"two")),
        Ok(msg("orders", b"three")),
    ];
    let (reports, verdict) = inner.run_topic("orders", events).unwrap();

    assert_eq!(reports, vec![vec![true], vec![true], vec![true]]);
    assert_eq!(verdict, Ok(()));
    assert_eq!(
        log.borrow().clone(),
        vec!["one".to_string(), "two".to_string(), "three".to_string()]
    );
}

#[test]
fn scenario_d_stream_error_after_three_messages() {
    let log = Rc::new(RefCell::new(Vec::new()));
    let inner = raw_subscriber(&log, "orders");

    let events: Vec<Result<Message, StreamError>> = vec![
        Ok(msg("orders", b"one")),
        Ok(msg("orders", b"two")),
        Ok(msg("orders", b"three")),
        Err(StreamError { code: 7 }),
        Ok(msg("orders", b"never")),
    ];
    let (reports, verdict) = inner.run_topic("orders", events).unwrap();

    assert_eq!(reports.len(), 3);
    assert_eq!(verdict, Err(StreamError { code: 7 }));
    assert_eq!(
        log.borrow().clone(),
        vec!["one".to_string(), "two".to_string(), "three".to_string()]
    );

    let aggregate = listen_outcome(&vec![Ok(()), verdict]);
    assert_eq!(aggregate, Err(ListenError::Task(StreamError { code: 7 })));
}

#[test]
fn skip_faults_picker_drops_failures_and_keeps_going() {
    let log: Log = Rc::new(RefCell::new(Vec::new()));
    let mut sub: Subscriber<Log, ExtractHandler<Raw, RecordRaw>, SkipFaultsPicker> =
        Subscriber::new(log.clone());
    sub.subscribe_with_picker("orders", vec![handler(RecordRaw)], SkipFaultsPicker);
    let inner = sub.complete();

    let events: Vec<Result<Message, StreamError>> = vec![
        Ok(msg("orders", b"one")),
        Err(StreamError { code: 7 }),
        Ok(msg("orders", b"two")),
    ];
    let (reports, verdict) = inner.run_topic("orders", events).unwrap();

    assert_eq!(reports, vec![vec![true], vec![true]]);
    assert_eq!(verdict, Ok(()));
    assert_eq!(log.borrow().clone(), vec!["one".to_string(), "two".to_string()]);
}

#[test]
fn run_all_drives_every_topic_and_surfaces_the_first_failure() {
    let log: Log = Rc::new(RefCell::new(Vec::new()));
    let mut sub: Subscriber<Log, ExtractHandler<Raw, RecordRaw>, DefaultPicker> =
        Subscriber::new(log.clone());
    sub.subscribe("orders", vec![handler(RecordRaw)]);
    sub.subscribe("users", vec![handler(RecordRaw)]);
    let inner = sub.complete();

    assert!(inner.is_registered("orders"));
    assert!(!inner.is_registered("ghost"));

    let feeds = vec![
        ("orders".to_string(), vec![Ok(msg("orders", b"o1")), Err(StreamError { code: 4 })]),
        ("users".to_string(), vec![Ok(msg("users", b"u1"))]),
    ];
    let outcome = inner.run_all(feeds);

    assert_eq!(outcome, Err(ListenError::Task(StreamError { code: 4 })));
    // the failing topic does not cancel the one after it
    assert_eq!(log.borrow().clone(), vec!["o1".to_string(), "u1".to_string()]);
}

#[test]
fn listen_outcome_is_ok_when_every_task_succeeded() {
    let results: Vec<Result<(), StreamError>> = vec![Ok(()), Ok(()), Ok(())];
    assert_eq!(listen_outcome(&results), Ok(()));
    assert_eq!(listen_outcome(&Vec::new()), Ok(()));
}

#[test]
fn listen_outcome_reports_the_first_task_failure() {
    let results: Vec<Result<(), StreamError>> = vec![
        Ok(()),
        Err(StreamError { code: 3 }),
        Err(StreamError { code: 9 }),
    ];
    assert_eq!(
        listen_outcome(&results),
        Err(ListenError::Task(StreamError { code: 3 }))
    );
}
