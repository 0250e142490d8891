use vstd::prelude::*;

use core::marker::PhantomData;

use crate::extract::{json_str_field, decode_json_str_field, FromMessage};
use crate::message::{Message, MessageView, StreamError};

verus! {

/// A unit of work supplied by the application: the body of one handler, bound
/// to one extraction type `T` and to the shared state `S`. The framework
/// promises nothing about what `run` does; it only routes values into it.
pub trait Work<T, S> {
    fn run(&self, value: T, state: &S);
}

/// A registered handler: one method that feeds a message (and the shared
/// state) through its own extraction step and, on success, its body.
pub trait Handler<S>: Sized {
    /// Whether this handler's extraction step accepts a message of this shape.
    spec fn accepts(&self, m: MessageView) -> bool;

    /// Feed one message to this handler. Returns whether extraction succeeded
    /// and the body ran; on a rejection the handler is skipped, nothing more.
    fn handle(&self, m: &Message, state: &S) -> (ran: bool)
        ensures
            ran == self.accepts(m@),
    ;
}

/// The adapter lifting a unit of work over one extraction type `T` into a
/// registrable handler.
pub struct ExtractHandler<T, W> {
    pub work: W,
    pub extraction: PhantomData<T>,
}

/// Lifts a plain unit of work expecting extraction type `T` into a handler.
pub fn handler<T: FromMessage, W>(work: W) -> (h: ExtractHandler<T, W>)
    ensures
        h.work == work,
{
    ExtractHandler { work, extraction: PhantomData::default() }
}

impl<S, T: FromMessage, W: Work<T, S>> Handler<S> for ExtractHandler<T, W> {
    open spec fn accepts(&self, m: MessageView) -> bool {
        T::extractable(m)
    }

    fn handle(&self, m: &Message, state: &S) -> (ran: bool) {
        match T::from_message(m) {
            Ok(v) => {
                self.work.run(v, state);
                true
            },
            Err(_) => false,
        }
    }
}

/// A structured-extraction handler that requires the payload to be a JSON
/// object carrying a string under `key`; the body receives that string.
pub struct StrFieldHandler<W> {
    pub key: String,
    pub work: W,
}

/// Lifts a unit of work expecting one string field into a handler that
/// rejects every payload not carrying that field.
pub fn str_field_handler<W>(key: String, work: W) -> (h: StrFieldHandler<W>)
    ensures
        h.key == key,
        h.work == work,
{
    StrFieldHandler { key, work }
}

impl<S, W: Work<String, S>> Handler<S> for StrFieldHandler<W> {
    open spec fn accepts(&self, m: MessageView) -> bool {
        m.payload matches Some(b) && json_str_field(b, self.key@) is Some
    }

    fn handle(&self, m: &Message, state: &S) -> (ran: bool) {
        match &m.payload {
            None => false,
            Some(p) => match decode_json_str_field(p.as_slice(), self.key.as_str()) {
                Some(s) => {
                    self.work.run(s, state);
                    true
                },
                None => false,
            },
        }
    }
}

/// One of two handler shapes, so one topic can mix extraction types in a
/// single ordered list.
pub enum Either<A, B> {
    First(A),
    Second(B),
}

impl<S, A: Handler<S>, B: Handler<S>> Handler<S> for Either<A, B> {
    open spec fn accepts(&self, m: MessageView) -> bool {
        match self {
            Either::First(a) => a.accepts(m),
            Either::Second(b) => b.accepts(m),
        }
    }

    fn handle(&self, m: &Message, state: &S) -> (ran: bool) {
        match self {
            Either::First(a) => a.handle(m, state),
            Either::Second(b) => b.handle(m, state),
        }
    }
}

/// Runs every handler in the list on one message, in registration order. Each
/// handler works on its own logical copy of the message; an extraction
/// rejection skips that handler only. The returned entry for each handler
/// depends on that handler and the message alone, never on its siblings.
pub fn dispatch<S, H: Handler<S>>(handlers: &Vec<H>, m: &Message, state: &S) -> (ran: Vec<bool>)
    ensures
        ran@.len() == handlers@.len(),
        forall|i: int| 0 <= i < handlers@.len() ==> ran@[i] == handlers@[i].accepts(m@),
{
    let mut ran: Vec<bool> = Vec::new();
    let mut i: usize = 0;
    while i < handlers.len()
        invariant
            0 <= i <= handlers@.len(),
            ran@.len() == i,
            forall|j: int| 0 <= j < i ==> ran@[j] == handlers@[j].accepts(m@),
        decreases handlers@.len() - i,
    {
        let outcome = handlers[i].handle(m, state);
        ran.push(outcome);
        i = i + 1;
    }
    ran
}

/// A handler's outcome for a message is a function of that handler and the
/// message alone: two lists agreeing at one position agree on that position's
/// outcome, whatever their other entries do or fail to extract.
pub proof fn lemma_handler_isolation<S, H: Handler<S>>(
    ha: Seq<H>,
    hb: Seq<H>,
    m: MessageView,
    i: int,
)
    requires
        0 <= i < ha.len(),
        0 <= i < hb.len(),
        ha[i] == hb[i],
    ensures
        ha[i].accepts(m) == hb[i].accepts(m),
{
}

/// The value carried by a successful pull.
pub open spec fn ok_val<A, B>(e: Result<A, B>) -> A {
    match e {
        Ok(v) => v,
        Err(_) => arbitrary(),
    }
}

/// The failure carried by an unsuccessful pull.
pub open spec fn err_val<A, B>(e: Result<A, B>) -> B {
    match e {
        Ok(_) => arbitrary(),
        Err(f) => f,
    }
}

/// The length of the failure-free prefix of an event script: the index of the
/// first failed pull, or the script's length if every pull succeeded.
pub open spec fn cut<A, B>(events: Seq<Result<A, B>>) -> int
    decreases events.len(),
{
    if events.len() == 0 {
        0
    } else if events[0] is Err {
        0
    } else {
        1 + cut(events.drop_first())
    }
}

/// What `cut` marks: everything before it succeeded, and the event at it, if
/// any, failed.
pub proof fn lemma_cut<A, B>(events: Seq<Result<A, B>>)
    ensures
        0 <= cut(events) <= events.len(),
        forall|j: int| 0 <= j < cut(events) ==> events[j] is Ok,
        cut(events) < events.len() ==> events[cut(events)] is Err,
    decreases events.len(),
{
    if events.len() > 0 && !(events[0] is Err) {
        lemma_cut(events.drop_first());
        assert forall|j: int| 0 <= j < cut(events) implies events[j] is Ok by {
            if j > 0 {
                assert(events.drop_first()[j - 1] is Ok);
            }
        }
        if cut(events) < events.len() {
            assert(events.drop_first()[cut(events) - 1] is Err);
        }
    }
}

/// The messages the default strategy forwards: the failure-free prefix of the
/// script, in arrival order.
pub open spec fn default_forwards(events: Seq<Result<Message, StreamError>>) -> Seq<Message> {
    Seq::new(cut(events) as nat, |i: int| ok_val(events[i]))
}

/// The verdict the default strategy reports: success on a clean script, else
/// the first failure, propagated rather than skipped.
pub open spec fn default_verdict(events: Seq<Result<Message, StreamError>>) -> Result<
    (),
    StreamError,
> {
    if cut(events) == events.len() {
        Ok(())
    } else {
        Err(err_val(events[cut(events)]))
    }
}

/// Under a failure-free script the default strategy forwards every message,
/// in arrival order, with no gaps, skips or duplicates.
pub proof fn lemma_default_forwards_all(events: Seq<Result<Message, StreamError>>)
    requires
        forall|i: int| 0 <= i < events.len() ==> events[i] is Ok,
    ensures
        default_forwards(events).len() == events.len(),
        forall|i: int| 0 <= i < events.len() ==> default_forwards(events)[i] == ok_val(events[i]),
        default_verdict(events) == Ok::<(), StreamError>(()),
{
    lemma_cut(events);
    if cut(events) < events.len() {
        assert(events[cut(events)] is Ok);
    }
}

/// A per-topic consumption strategy: it owns the pull loop for one topic and
/// decides which pulled messages reach dispatch, and with what verdict the
/// loop ends. Implementations fix both decisions as functions of the event
/// script alone.
pub trait Picker<S, H: Handler<S>>: Sized {
    /// The messages this strategy forwards to dispatch, in order.
    spec fn forwards(&self, events: Seq<Result<Message, StreamError>>) -> Seq<Message>;

    /// The verdict this strategy reports for the script.
    spec fn verdict(&self, events: Seq<Result<Message, StreamError>>) -> Result<(), StreamError>;

    /// Drive the whole script: dispatch each forwarded message to every
    /// handler in order, and report one outcome row per forwarded message.
    fn run(&self, events: Vec<Result<Message, StreamError>>, handlers: &Vec<H>, state: &S) -> (r: (
        Vec<Vec<bool>>,
        Result<(), StreamError>,
    ))
        ensures
            r.1 == self.verdict(events@),
            r.0@.len() == self.forwards(events@).len(),
            forall|i: int| 0 <= i < r.0@.len() ==> (#[trigger] r.0@[i])@.len() == handlers@.len(),
            forall|i: int, j: int|
                0 <= i < r.0@.len() && 0 <= j < handlers@.len() ==> (#[trigger] r.0@[i]@[j])
                    == handlers@[j].accepts(self.forwards(events@)[i]@),
    ;
}

/// The default consumption strategy: pull, forward immediately, repeat; stop
/// at the first failed pull and propagate it.
pub struct DefaultPicker;

impl<S, H: Handler<S>> Picker<S, H> for DefaultPicker {
    open spec fn forwards(&self, events: Seq<Result<Message, StreamError>>) -> Seq<Message> {
        default_forwards(events)
    }

    open spec fn verdict(&self, events: Seq<Result<Message, StreamError>>) -> Result<
        (),
        StreamError,
    > {
        default_verdict(events)
    }

    fn run(&self, events: Vec<Result<Message, StreamError>>, handlers: &Vec<H>, state: &S) -> (r: (
        Vec<Vec<bool>>,
        Result<(), StreamError>,
    )) {
        let mut reports: Vec<Vec<bool>> = Vec::new();
        let mut i: usize = 0;
        while i < events.len()
            invariant
                0 <= i <= events@.len(),
                forall|j: int| 0 <= j < i ==> events@[j] is Ok,
                reports@.len() == i,
                forall|j: int| 0 <= j < i ==> (#[trigger] reports@[j])@.len() == handlers@.len(),
                forall|j: int, k: int|
                    0 <= j < i && 0 <= k < handlers@.len() ==> (#[trigger] reports@[j]@[k])
                        == handlers@[k].accepts(ok_val(events@[j])@),
            decreases events@.len() - i,
        {
            match &events[i] {
                Ok(m) => {
                    let row = dispatch(handlers, m, state);
                    reports.push(row);
                    i = i + 1;
                },
                Err(e) => {
                    proof {
                        lemma_cut(events@);
                        if cut(events@) < i {
                            assert(events@[cut(events@)] is Ok);
                        }
                        assert(cut(events@) == i);
                    }
                    return (reports, Err(*e));
                },
            }
        }
        proof {
            lemma_cut(events@);
            if cut(events@) < events@.len() {
                assert(events@[cut(events@)] is Ok);
            }
            assert(cut(events@) == events@.len());
        }
        (reports, Ok(()))
    }
}

/// The messages of an event script whose pulls succeeded, in arrival order.
pub open spec fn successes(events: Seq<Result<Message, StreamError>>) -> Seq<Message>
    decreases events.len(),
{
    if events.len() == 0 {
        seq![]
    } else {
        successes(events.drop_last()) + (match events.last() {
            Ok(m) => seq![m],
            Err(_) => seq![],
        })
    }
}

/// A consumption strategy with explicit skip-on-error semantics: a failed
/// pull is dropped rather than propagated, every successful pull is forwarded
/// in arrival order, and the loop always reports success.
pub struct SkipFaultsPicker;

impl<S, H: Handler<S>> Picker<S, H> for SkipFaultsPicker {
    open spec fn forwards(&self, events: Seq<Result<Message, StreamError>>) -> Seq<Message> {
        successes(events)
    }

    open spec fn verdict(&self, events: Seq<Result<Message, StreamError>>) -> Result<
        (),
        StreamError,
    > {
        Ok(())
    }

    fn run(&self, events: Vec<Result<Message, StreamError>>, handlers: &Vec<H>, state: &S) -> (r: (
        Vec<Vec<bool>>,
        Result<(), StreamError>,
    )) {
        let mut reports: Vec<Vec<bool>> = Vec::new();
        let mut i: usize = 0;
        while i < events.len()
            invariant
                0 <= i <= events@.len(),
                reports@.len() == successes(events@.take(i as int)).len(),
                forall|j: int|
                    0 <= j < reports@.len() ==> (#[trigger] reports@[j])@.len()
                        == handlers@.len(),
                forall|j: int, k: int|
                    0 <= j < reports@.len() && 0 <= k < handlers@.len() ==> (
                    #[trigger] reports@[j]@[k]) == handlers@[k].accepts(
                        successes(events@.take(i as int))[j]@,
                    ),
            decreases events@.len() - i,
        {
            proof {
                assert(events@.take(i + 1).drop_last() =~= events@.take(i as int));
                assert(events@.take(i + 1).last() == events@[i as int]);
            }
            match &events[i] {
                Ok(m) => {
                    let row = dispatch(handlers, m, state);
                    reports.push(row);
                },
                Err(_) => {
                    proof {
                        assert(successes(events@.take(i + 1)) =~= successes(
                            events@.take(i as int),
                        ));
                    }
                },
            }
            i = i + 1;
        }
        proof {
            assert(events@.take(events@.len() as int) =~= events@);
        }
        (reports, Ok(()))
    }
}

/// The immutable per-topic bundle: an ordered handler list plus an optional
/// custom consumption strategy (the default strategy when absent).
pub struct TopicHandler<H, P> {
    pub handlers: Vec<H>,
    pub picker: Option<P>,
}

impl<H, P> TopicHandler<H, P> {
    pub fn new(handlers: Vec<H>, picker: Option<P>) -> (t: Self)
        ensures
            t.handlers == handlers,
            t.picker == picker,
    {
        TopicHandler { handlers, picker }
    }
}

/// The messages a topic's bundle forwards for a script: its own strategy's
/// choice, or the default strategy's when none was registered.
pub open spec fn topic_forwards<S, H: Handler<S>, P: Picker<S, H>>(
    t: TopicHandler<H, P>,
    events: Seq<Result<Message, StreamError>>,
) -> Seq<Message> {
    match t.picker {
        Some(p) => p.forwards(events),
        None => default_forwards(events),
    }
}

/// The verdict a topic's bundle reports for a script.
pub open spec fn topic_verdict<S, H: Handler<S>, P: Picker<S, H>>(
    t: TopicHandler<H, P>,
    events: Seq<Result<Message, StreamError>>,
) -> Result<(), StreamError> {
    match t.picker {
        Some(p) => p.verdict(events),
        None => default_verdict(events),
    }
}

} // verus!
