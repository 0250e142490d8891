use vstd::prelude::*;
use vstd::map::*;

use crate::message::{Message, StreamError};
use crate::topic_handler::{
    cut, err_val, lemma_cut, topic_forwards, topic_verdict, DefaultPicker, Handler, Picker,
    TopicHandler,
};

verus! {

/// A failure of the run phase as a whole: either the listener could not start,
/// or a topic name with no registration was driven, or a per-topic task ended
/// in a stream failure (the first one observed).
#[derive(Debug, PartialEq, Eq)]
pub enum ListenError {
    /// The underlying consumer could not be created from the configuration.
    Connect(String),
    /// The consumer could not be subscribed to the registered topics.
    Subscribe(String),
    /// A topic name with no registration was driven.
    UnknownTopic(String),
    /// The first per-topic task failure observed.
    Task(StreamError),
}

/// Placeholder shared state for subscribers that thread no state of their own
/// through their handlers.
#[derive(Clone, Copy, Debug, PartialEq, Eq, Structural)]
pub struct DefaultState {}

/// The routing table denoted by an ordered registration list: topic name to
/// per-topic bundle, later entries unreachable because keys stay unique.
pub open spec fn table_of<H, P>(entries: Seq<(String, TopicHandler<H, P>)>) -> Map<
    Seq<char>,
    TopicHandler<H, P>,
> {
    Map::new(
        |k: Seq<char>| exists|i: int| 0 <= i < entries.len() && entries[i].0@ == k,
        |k: Seq<char>|
            entries[choose|i: int| 0 <= i < entries.len() && entries[i].0@ == k].1,
    )
}

/// Keys pairwise distinct: each topic has exactly one live registration.
pub open spec fn distinct_keys<H, P>(entries: Seq<(String, TopicHandler<H, P>)>) -> bool {
    forall|i: int, j: int|
        0 <= i < j < entries.len() ==> (#[trigger] entries[i]).0@ != (#[trigger] entries[j]).0@
}

/// The build-phase registry: accumulates topic-to-bundle bindings and the one
/// shared state value, then seals into the run-phase object.
pub struct Subscriber<S, H, P> {
    entries: Vec<(String, TopicHandler<H, P>)>,
    state: S,
}

/// The sealed, run-phase object: an immutable routing table plus the shared
/// state threaded into every handler invocation.
pub struct InnerSubscriber<S, H, P> {
    entries: Vec<(String, TopicHandler<H, P>)>,
    state: S,
}

impl<S, H, P> Subscriber<S, H, P> {
    /// Each topic registered at most once.
    pub closed spec fn wf(&self) -> bool {
        distinct_keys(self.entries@)
    }

    /// The routing table built so far.
    pub closed spec fn table(&self) -> Map<Seq<char>, TopicHandler<H, P>> {
        table_of(self.entries@)
    }

    /// The shared state the registry was opened with.
    pub closed spec fn state(&self) -> S {
        self.state
    }

    pub fn new(state: S) -> (s: Self)
        ensures
            s.wf(),
            s.table() == Map::<Seq<char>, TopicHandler<H, P>>::empty(),
            s.state() == state,
    {
        let s = Subscriber { entries: Vec::new(), state };
        proof {
            assert_maps_equal!(s.table(), Map::<Seq<char>, TopicHandler<H, P>>::empty());
        }
        s
    }

    /// Binds `topic` to `bundle`, replacing any earlier binding of the same
    /// topic name: map-insert semantics, keys stay unique.
    fn insert_entry(&mut self, topic: &str, bundle: TopicHandler<H, P>)
        requires
            old(self).wf(),
        ensures
            final(self).wf(),
            final(self).table() == old(self).table().insert(topic@, bundle),
            final(self).state() == old(self).state(),
    {
        let key = String::from_str(topic);
        let ghost old_entries = self.entries@;
        let mut i: usize = 0;
        while i < self.entries.len()
            invariant
                0 <= i <= self.entries@.len(),
                self.entries@ == old_entries,
                old_entries == old(self).entries@,
                distinct_keys(old_entries),
                self.state == old(self).state,
                key@ == topic@,
                forall|j: int| 0 <= j < i ==> (#[trigger] old_entries[j]).0@ != key@,
            decreases self.entries@.len() - i,
        {
            if self.entries[i].0 == key {
                self.entries.set(i, (key, bundle));
                proof {
                    lemma_table_update(old_entries, self.entries@, i as int, topic@, bundle);
                }
                return ;
            }
            i = i + 1;
        }
        self.entries.push((key, bundle));
        proof {
            lemma_table_push(old_entries, self.entries@, topic@, bundle);
        }
    }

    /// Registers one or more handlers for `topic` under the default
    /// consumption strategy. The latest registration for a topic name wins.
    pub fn subscribe(&mut self, topic: &str, handlers: Vec<H>)
        requires
            old(self).wf(),
        ensures
            final(self).wf(),
            final(self).table() == old(self).table().insert(
                topic@,
                (TopicHandler { handlers, picker: None }),
            ),
            final(self).state() == old(self).state(),
    {
        self.insert_entry(topic, TopicHandler { handlers, picker: None });
    }

    /// Registers handlers for `topic` together with a custom consumption
    /// strategy bound to that topic only.
    pub fn subscribe_with_picker(&mut self, topic: &str, handlers: Vec<H>, picker: P)
        requires
            old(self).wf(),
        ensures
            final(self).wf(),
            final(self).table() == old(self).table().insert(
                topic@,
                (TopicHandler { handlers, picker: Some(picker) }),
            ),
            final(self).state() == old(self).state(),
    {
        self.insert_entry(topic, TopicHandler { handlers, picker: Some(picker) });
    }

    /// Seals the registry: no further registration is possible through the
    /// returned run-phase object, whose table is read-only from here on.
    pub fn complete(self) -> (inner: InnerSubscriber<S, H, P>)
        requires
            self.wf(),
        ensures
            inner.wf(),
            inner.table() == self.table(),
            inner.state() == self.state(),
    {
        InnerSubscriber { entries: self.entries, state: self.state }
    }
}

impl<H, P> Subscriber<DefaultState, H, P> {
    /// Opens a registry that threads no shared state of its own: the generic
    /// constructor with the placeholder state.
    pub fn stateless() -> (s: Self)
        ensures
            s.wf(),
            s.table() == Map::<Seq<char>, TopicHandler<H, P>>::empty(),
            s.state() == (DefaultState {  }),
    {
        Subscriber::new(DefaultState {  })
    }
}

/// Replacing the entry that holds `key` (and nothing else) is a map insert.
proof fn lemma_table_update<H, P>(
    pre: Seq<(String, TopicHandler<H, P>)>,
    post: Seq<(String, TopicHandler<H, P>)>,
    at: int,
    key: Seq<char>,
    bundle: TopicHandler<H, P>,
)
    requires
        distinct_keys(pre),
        0 <= at < pre.len(),
        pre[at].0@ == key,
        post.len() == pre.len(),
        post[at].0@ == key,
        post[at].1 == bundle,
        forall|j: int| 0 <= j < pre.len() && j != at ==> post[j] == pre[j],
    ensures
        distinct_keys(post),
        table_of(post) == table_of(pre).insert(key, bundle),
{
    assert forall|i: int, j: int| 0 <= i < j < post.len() implies (#[trigger] post[i]).0@
        != (#[trigger] post[j]).0@ by {
        assert(pre[i].0@ != pre[j].0@);
        assert(post[i].0@ == pre[i].0@);
        assert(post[j].0@ == pre[j].0@);
    }
    assert forall|k: Seq<char>|
        table_of(post).contains_key(k) == table_of(pre).insert(key, bundle).contains_key(
            k,
        ) by {
        if exists|i: int| 0 <= i < post.len() && post[i].0@ == k {
            let i = choose|i: int| 0 <= i < post.len() && post[i].0@ == k;
            assert(pre[i].0@ == k);
        }
        if exists|i: int| 0 <= i < pre.len() && pre[i].0@ == k {
            let i = choose|i: int| 0 <= i < pre.len() && pre[i].0@ == k;
            assert(post[i].0@ == k);
        }
    }
    assert forall|k: Seq<char>| table_of(post).contains_key(k) implies table_of(post)[k]
        == table_of(pre).insert(key, bundle)[k] by {
        let i = choose|i: int| 0 <= i < post.len() && post[i].0@ == k;
        if k == key {
            assert(post[at].0@ == k);
            let w = choose|i: int| 0 <= i < post.len() && post[i].0@ == key;
            if w != at {
                assert(pre[w].0@ == key);
                assert(pre[at].0@ == key);
                if w < at {
                    assert(pre[w].0@ != pre[at].0@);
                } else {
                    assert(pre[at].0@ != pre[w].0@);
                }
                assert(false);
            }
        } else {
            assert(i != at);
            assert(pre[i].0@ == k);
            let w = choose|i: int| 0 <= i < pre.len() && pre[i].0@ == k;
            if w != i {
                if w < i {
                    assert(pre[w].0@ != pre[i].0@);
                } else {
                    assert(pre[i].0@ != pre[w].0@);
                }
                assert(false);
            }
            let w2 = choose|i: int| 0 <= i < post.len() && post[i].0@ == k;
            if w2 != i {
                if w2 < i {
                    assert(post[w2].0@ != post[i].0@);
                } else {
                    assert(post[i].0@ != post[w2].0@);
                }
                assert(false);
            }
        }
    }
    assert(table_of(post) =~= table_of(pre).insert(key, bundle));
}

/// Appending an entry under a fresh key is a map insert.
proof fn lemma_table_push<H, P>(
    pre: Seq<(String, TopicHandler<H, P>)>,
    post: Seq<(String, TopicHandler<H, P>)>,
    key: Seq<char>,
    bundle: TopicHandler<H, P>,
)
    requires
        distinct_keys(pre),
        forall|j: int| 0 <= j < pre.len() ==> (#[trigger] pre[j]).0@ != key,
        post.len() == pre.len() + 1,
        post[pre.len() as int].0@ == key,
        post[pre.len() as int].1 == bundle,
        forall|j: int| 0 <= j < pre.len() ==> post[j] == pre[j],
    ensures
        distinct_keys(post),
        table_of(post) == table_of(pre).insert(key, bundle),
{
    let n = pre.len() as int;
    assert forall|i: int, j: int| 0 <= i < j < post.len() implies (#[trigger] post[i]).0@
        != (#[trigger] post[j]).0@ by {
        if j < n {
            assert(pre[i].0@ != pre[j].0@);
        } else {
            assert(pre[i].0@ != key);
        }
    }
    assert forall|k: Seq<char>|
        table_of(post).contains_key(k) == table_of(pre).insert(key, bundle).contains_key(
            k,
        ) by {
        if exists|i: int| 0 <= i < post.len() && post[i].0@ == k {
            let i = choose|i: int| 0 <= i < post.len() && post[i].0@ == k;
            if i < n {
                assert(pre[i].0@ == k);
            }
        }
        if exists|i: int| 0 <= i < pre.len() && pre[i].0@ == k {
            let i = choose|i: int| 0 <= i < pre.len() && pre[i].0@ == k;
            assert(post[i].0@ == k);
        }
    }
    assert forall|k: Seq<char>| table_of(post).contains_key(k) implies table_of(post)[k]
        == table_of(pre).insert(key, bundle)[k] by {
        let w = choose|i: int| 0 <= i < post.len() && post[i].0@ == k;
        if k == key {
            if w != n {
                assert(pre[w].0@ == key);
                assert(false);
            }
        } else {
            assert(w != n);
            assert(pre[w].0@ == k);
            let w1 = choose|i: int| 0 <= i < pre.len() && pre[i].0@ == k;
            if w1 != w {
                if w1 < w {
                    assert(pre[w1].0@ != pre[w].0@);
                } else {
                    assert(pre[w].0@ != pre[w1].0@);
                }
                assert(false);
            }
        }
    }
    assert(table_of(post) =~= table_of(pre).insert(key, bundle));
}

impl<S, H, P> InnerSubscriber<S, H, P> {
    /// Each topic has exactly one live registration.
    pub closed spec fn wf(&self) -> bool {
        distinct_keys(self.entries@)
    }

    /// The sealed routing table.
    pub closed spec fn table(&self) -> Map<Seq<char>, TopicHandler<H, P>> {
        table_of(self.entries@)
    }

    /// The shared state threaded into every handler invocation.
    pub closed spec fn state(&self) -> S {
        self.state
    }

    /// Builds the run-phase object directly from a registration list whose
    /// topics are already unique, and the shared state.
    pub fn new(entries: Vec<(String, TopicHandler<H, P>)>, state: S) -> (inner: Self)
        requires
            distinct_keys(entries@),
        ensures
            inner.wf(),
            inner.table() == table_of(entries@),
            inner.state() == state,
    {
        InnerSubscriber { entries, state }
    }

    /// The registered topic names, each exactly once: what the runtime driver
    /// subscribes the underlying consumer to.
    pub fn topics(&self) -> (names: Vec<String>)
        requires
            self.wf(),
        ensures
            forall|k: Seq<char>|
                self.table().contains_key(k) <==> exists|i: int|
                    0 <= i < names@.len() && (#[trigger] names@[i])@ == k,
            forall|i: int, j: int|
                0 <= i < j < names@.len() ==> (#[trigger] names@[i])@ != (#[trigger] names@[j])@,
    {
        let mut names: Vec<String> = Vec::new();
        let mut i: usize = 0;
        while i < self.entries.len()
            invariant
                0 <= i <= self.entries@.len(),
                names@.len() == i,
                forall|j: int| 0 <= j < i ==> (#[trigger] names@[j])@ == self.entries@[j].0@,
            decreases self.entries@.len() - i,
        {
            names.push(self.entries[i].0.clone());
            i = i + 1;
        }
        proof {
            assert forall|k: Seq<char>|
                self.table().contains_key(k) <==> exists|i: int|
                    0 <= i < names@.len() && (#[trigger] names@[i])@ == k by {
                if exists|i: int| 0 <= i < names@.len() && (#[trigger] names@[i])@ == k {
                    let i = choose|i: int| 0 <= i < names@.len() && (#[trigger] names@[i])@ == k;
                    assert(self.entries@[i].0@ == k);
                }
                if self.table().contains_key(k) {
                    let i = choose|i: int|
                        0 <= i < self.entries@.len() && self.entries@[i].0@ == k;
                    assert(names@[i]@ == k);
                }
            }
        }
        names
    }

    /// The bundle registered for a topic name, if any.
    fn find(&self, topic: &str) -> (r: Option<&TopicHandler<H, P>>)
        requires
            self.wf(),
        ensures
            match r {
                Some(t) => self.table().contains_key(topic@) && *t == self.table()[topic@],
                None => !self.table().contains_key(topic@),
            },
    {
        let key = String::from_str(topic);
        let mut i: usize = 0;
        while i < self.entries.len()
            invariant
                0 <= i <= self.entries@.len(),
                key@ == topic@,
                self.wf(),
                forall|j: int| 0 <= j < i ==> (#[trigger] self.entries@[j]).0@ != key@,
            decreases self.entries@.len() - i,
        {
            if self.entries[i].0 == key {
                proof {
                    let w = choose|j: int|
                        0 <= j < self.entries@.len() && self.entries@[j].0@ == topic@;
                    if w != i {
                        if w < i {
                            assert(self.entries@[w].0@ != self.entries@[i as int].0@);
                        } else {
                            assert(self.entries@[i as int].0@ != self.entries@[w].0@);
                        }
                        assert(false);
                    }
                }
                return Some(&self.entries[i].1);
            }
            i = i + 1;
        }
        None
    }

    /// Whether a topic name has a live registration: the testable guard for
    /// the run phase's precondition.
    pub fn is_registered(&self, topic: &str) -> (b: bool)
        requires
            self.wf(),
        ensures
            b == self.table().contains_key(topic@),
    {
        match self.find(topic) {
            Some(_) => true,
            None => false,
        }
    }

    /// Drives one topic's consumption over an event script: resolves the
    /// topic's bundle, runs its strategy (the default one when none was
    /// registered) over the script with this table's shared state, and
    /// reports one outcome row per forwarded message plus the strategy's
    /// verdict. Fails, touching no handler, exactly when the topic was never
    /// registered.
    pub fn run_topic(&self, topic: &str, events: Vec<Result<Message, StreamError>>) -> (r: Result<
        (Vec<Vec<bool>>, Result<(), StreamError>),
        ListenError,
    >) where H: Handler<S>, P: Picker<S, H>
        requires
            self.wf(),
        ensures
            r is Ok <==> self.table().contains_key(topic@),
            r matches Ok(rep) ==> {
                let t = self.table()[topic@];
                &&& rep.1 == topic_verdict(t, events@)
                &&& rep.0@.len() == topic_forwards(t, events@).len()
                &&& forall|i: int|
                    0 <= i < rep.0@.len() ==> (#[trigger] rep.0@[i])@.len() == t.handlers@.len()
                &&& forall|i: int, j: int|
                    0 <= i < rep.0@.len() && 0 <= j < t.handlers@.len() ==> (#[trigger] rep.0@[i]@[j])
                        == t.handlers@[j].accepts(topic_forwards(t, events@)[i]@)
            },
            r matches Err(e) ==> e matches ListenError::UnknownTopic(t) && t@ == topic@,
    {
        match self.find(topic) {
            None => Err(ListenError::UnknownTopic(String::from_str(topic))),
            Some(t) => match &t.picker {
                Some(p) => Ok(p.run(events, &t.handlers, &self.state)),
                None => {
                    let d = DefaultPicker;
                    Ok(d.run(events, &t.handlers, &self.state))
                },
            },
        }
    }
}

/// The verdict the table owes one feed: what the fed topic's strategy reports
/// for the fed script.
pub open spec fn feed_verdict<S, H: Handler<S>, P: Picker<S, H>>(
    table: Map<Seq<char>, TopicHandler<H, P>>,
    feed: (String, Vec<Result<Message, StreamError>>),
) -> Result<(), StreamError> {
    topic_verdict(table[feed.0@], feed.1@)
}

impl<S, H: Handler<S>, P: Picker<S, H>> InnerSubscriber<S, H, P> {
    /// The whole run phase over finished event scripts, one feed per topic,
    /// in order: every feed's topic is driven to completion — no failure
    /// cancels the topics after it — and the result is success only if every
    /// topic's run succeeded, else the first failure observed.
    pub fn run_all(&self, feeds: Vec<(String, Vec<Result<Message, StreamError>>)>) -> (r: Result<
        (),
        ListenError,
    >)
        requires
            self.wf(),
            forall|i: int|
                0 <= i < feeds@.len() ==> self.table().contains_key((#[trigger] feeds@[i]).0@),
        ensures
            ({
                let verdicts = Seq::new(
                    feeds@.len(),
                    |i: int| feed_verdict(self.table(), feeds@[i]),
                );
                &&& (r is Ok <==> cut(verdicts) == verdicts.len())
                &&& (r matches Err(e) ==> e == ListenError::Task(err_val(verdicts[cut(verdicts)])))
            }),
    {
        let ghost all = feeds@;
        let mut feeds = feeds;
        let mut results: Vec<Result<(), StreamError>> = Vec::new();
        while feeds.len() > 0
            invariant
                self.wf(),
                results@.len() + feeds@.len() == all.len(),
                feeds@ == all.subrange(results@.len() as int, all.len() as int),
                forall|i: int|
                    0 <= i < all.len() ==> self.table().contains_key((#[trigger] all[i]).0@),
                forall|j: int|
                    0 <= j < results@.len() ==> results@[j] == feed_verdict(self.table(), all[j]),
            decreases feeds@.len(),
        {
            let ghost done = results@.len() as int;
            let feed = feeds.remove(0);
            proof {
                assert(feed == all[done]);
                assert(feeds@ =~= all.subrange(done + 1, all.len() as int));
            }
            match self.run_topic(feed.0.as_str(), feed.1) {
                Ok(rep) => {
                    results.push(rep.1);
                },
                Err(_) => {
                    // unreachable: every feed's topic is registered
                    unreached()
                },
            }
        }
        proof {
            assert(results@ =~= Seq::new(all.len(), |i: int| feed_verdict(self.table(), all[i])));
        }
        listen_outcome(&results)
    }
}

/// The aggregate outcome of the run phase: success only if every per-topic
/// task completed without error, else the first task failure observed. No
/// task's failure cancels its siblings; this only folds their results.
pub fn listen_outcome(results: &Vec<Result<(), StreamError>>) -> (r: Result<(), ListenError>)
    ensures
        r is Ok <==> cut(results@) == results@.len(),
        r matches Err(e) ==> e == ListenError::Task(err_val(results@[cut(results@)])),
{
    proof {
        lemma_cut(results@);
    }
    let mut i: usize = 0;
    while i < results.len()
        invariant
            0 <= i <= results@.len(),
            forall|j: int| 0 <= j < i ==> results@[j] is Ok,
        decreases results@.len() - i,
    {
        match &results[i] {
            Ok(_) => {
                i = i + 1;
            },
            Err(e) => {
                proof {
                    lemma_cut(results@);
                    if cut(results@) < i {
                        assert(results@[cut(results@)] is Ok);
                    }
                    assert(cut(results@) == i);
                }
                return Err(ListenError::Task(*e));
            },
        }
    }
    proof {
        lemma_cut(results@);
        if cut(results@) < results@.len() {
            assert(results@[cut(results@)] is Ok);
        }
    }
    Ok(())
}

/// Registering one topic never disturbs another: after a registration under
/// `t2`, the binding of any other topic `t1` — present or absent — is exactly
/// what it was before.
pub proof fn lemma_registration_isolated<H, P>(
    pre: Map<Seq<char>, TopicHandler<H, P>>,
    t1: Seq<char>,
    t2: Seq<char>,
    bundle: TopicHandler<H, P>,
)
    requires
        t1 != t2,
    ensures
        pre.insert(t2, bundle).contains_key(t1) == pre.contains_key(t1),
        pre.contains_key(t1) ==> pre.insert(t2, bundle)[t1] == pre[t1],
{
}

/// Registering the same topic twice keeps only the latest bundle: the earlier
/// one is gone from the sealed table, for every key.
pub proof fn lemma_latest_registration_wins<H, P>(
    pre: Map<Seq<char>, TopicHandler<H, P>>,
    t: Seq<char>,
    first: TopicHandler<H, P>,
    second: TopicHandler<H, P>,
)
    ensures
        pre.insert(t, first).insert(t, second) == pre.insert(t, second),
{
    assert(pre.insert(t, first).insert(t, second) =~= pre.insert(t, second));
}

} // verus!
