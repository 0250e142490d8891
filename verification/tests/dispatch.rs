use std::cell::RefCell;
use std::rc::Rc;

use tonerre::extract::{Json, Raw};
use tonerre::message::{Message, StreamError};
use tonerre::subscriber::Subscriber;
use tonerre::topic_handler::{
    dispatch, handler, str_field_handler, DefaultPicker, Either, ExtractHandler, StrFieldHandler,
    Work,
};

type Log = Rc<RefCell<Vec<String>>>;

struct RecordRaw;

impl Work<Raw, Log> for RecordRaw {
    fn run(&self, value: Raw, state: &Log) {
        let payload = value.0.payload.clone().unwrap_or_default();
        state.borrow_mut().push(format!("raw:{}", String::from_utf8_lossy(&payload)));
    }
}

struct RecordName;

impl Work<String, Log> for RecordName {
    fn run(&self, value: String, state: &Log) {
        state.borrow_mut().push(format!("name:{}", value));
    }
}

struct RecordJson;

impl Work<Json<serde_json::Value>, Log> for RecordJson {
    fn run(&self, value: Json<serde_json::Value>, state: &Log) {
        state.borrow_mut().push(format!("json:{}", value.0));
    }
}

fn msg(topic: &str, payload: &[u8]) -> Message {
    Message {
        topic: topic.to_string(),
        partition: 0,
        offset: 0,
        payload: Some(payload.to_vec()),
    }
}

fn fresh_log() -> Log {
    Rc::new(RefCell::new(Vec::new()))
}

#[test]
fn scenario_a_raw_handler_sees_the_payload_once() {
    let log = fresh_log();
    let mut sub: Subscriber<Log, ExtractHandler<Raw, RecordRaw>, DefaultPicker> =
        Subscriber::new(log.clone());
    sub.subscribe("orders", vec![handler(RecordRaw)]);
    let inner = sub.complete();

    let events: Vec<Result<Message, StreamError>> = vec![Ok(msg("orders", b"hello"))];
    let (reports, verdict) = inner.run_topic("orders", events).unwrap();

    assert_eq!(reports, vec![vec![true]]);
    assert_eq!(verdict, Ok(()));
    assert_eq!(log.borrow().clone(), vec!["raw:hello".to_string()]);
}

#[test]
fn scenario_b_structured_handler_requires_the_schema() {
    let log = fresh_log();
    let mut sub: Subscriber<Log, StrFieldHandler<RecordName>, DefaultPicker> =
        Subscriber::new(log.clone());
    sub.subscribe("users", vec![str_field_handler("name".to_string(), RecordName)]);
    let inner = sub.complete();

    let events: Vec<Result<Message, StreamError>> = vec![
        Ok(msg("users", b"{\"name\":\"Ana\"}")),
        Ok(msg("users", b"{\"nam\":\"Ana\"}")),
    ];
    let (reports, verdict) = inner.run_topic("users", events).unwrap();

    assert_eq!(reports, vec![vec![true], vec![false]]);
    assert_eq!(verdict, Ok(()));
    assert_eq!(log.borrow().clone(), vec!["name:Ana".to_string()]);
}

#[test]
fn scenario_c_rejection_skips_one_handler_only() {
    let log = fresh_log();
    type Mixed = Either<
        ExtractHandler<Raw, RecordRaw>,
        ExtractHandler<Json<serde_json::Value>, RecordJson>,
    >;
    let mut sub: Subscriber<Log, Mixed, DefaultPicker> = Subscriber::new(log.clone());
    sub.subscribe(
        "t",
        vec![
            Either::First(handler(RecordRaw)),
            Either::Second(handler(RecordJson)),
        ],
    );
    let inner = sub.complete();

    let events: Vec<Result<Message, StreamError>> = vec![Ok(msg("t", b"not-json"))];
    let (reports, verdict) = inner.run_topic("t", events).unwrap();

    assert_eq!(reports, vec![vec![true, false]]);
    assert_eq!(verdict, Ok(()));
    assert_eq!(log.borrow().clone(), vec!["raw:not-json".to_string()]);
}

#[test]
fn sibling_handlers_extract_independently() {
    let log = fresh_log();
    type Mixed = Either<StrFieldHandler<RecordName>, ExtractHandler<Raw, RecordRaw>>;
    let handlers: Vec<Mixed> = vec![
        Either::First(str_field_handler("name".to_string(), RecordName)),
        Either::Second(handler(RecordRaw)),
    ];

    let m = msg("t", b"no-name-here");
    let ran = dispatch(&handlers, &m, &log);

    assert_eq!(ran, vec![false, true]);
    assert_eq!(log.borrow().clone(), vec!["raw:no-name-here".to_string()]);
}

#[test]
fn str_field_handler_rejects_a_non_string_field() {
    let log = fresh_log();
    let handlers = vec![str_field_handler("name".to_string(), RecordName)];

    let m = msg("users", b"{\"name\":5}");
    let ran = dispatch(&handlers, &m, &log);

    assert_eq!(ran, vec![false]);
    assert!(log.borrow().is_empty());
}

#[test]
fn handlers_reject_a_message_without_a_payload() {
    let log = fresh_log();
    type Mixed = Either<StrFieldHandler<RecordName>, ExtractHandler<Json<serde_json::Value>, RecordJson>>;
    let handlers: Vec<Mixed> = vec![
        Either::First(str_field_handler("name".to_string(), RecordName)),
        Either::Second(handler(RecordJson)),
    ];

    let bare = Message { topic: "t".to_string(), partition: 0, offset: 0, payload: None };
    let ran = dispatch(&handlers, &bare, &log);

    assert_eq!(ran, vec![false, false]);
    assert!(log.borrow().is_empty());
}

#[test]
fn dispatch_runs_handlers_in_registration_order() {
    let log = fresh_log();
    type Mixed = Either<ExtractHandler<Raw, RecordRaw>, StrFieldHandler<RecordName>>;
    let handlers: Vec<Mixed> = vec![
        Either::First(handler(RecordRaw)),
        Either::Second(str_field_handler("name".to_string(), RecordName)),
    ];

    let m = msg("t", b"{\"name\":\"Ana\"}");
    let ran = dispatch(&handlers, &m, &log);

    assert_eq!(ran, vec![true, true]);
    assert_eq!(
        log.borrow().clone(),
        vec!["raw:{\"name\":\"Ana\"}".to_string(), "name:Ana".to_string()]
    );
}
