//! The registry of connected clients and their topic subscriptions, and the
//! fan-out of published frames.
//!
//! The broker is stated over a model, [`Registry`]: a map from client id to
//! the client's delivery handle and a map from topic name to the set of
//! subscribed client ids. Every operation says which registry it leaves
//! behind; `publish` says to whom it tried to deliver.

use vstd::prelude::*;
use std::collections::{HashMap, HashSet};
use tokio::sync::mpsc::UnboundedSender;
use crate::server::frame::Frame;
use crate::server::text::same_text;

verus! {

broadcast use vstd::std_specs::hash::group_hash_axioms;

/// `tokio::sync::mpsc::UnboundedSender`, the sending half of an unbounded
/// channel. Nothing is said of what is inside one: the broker stores it, hands
/// it out and sends through it.
#[verifier::external_type_specification]
#[verifier::external_body]
#[verifier::reject_recursive_types(T)]
pub struct ExUnboundedSender<T>(UnboundedSender<T>);

/// Puts `frame` on the queue behind `tx`.
///
/// Calls `tokio::sync::mpsc::UnboundedSender::send`. The call never waits. It
/// fails when the receiving half is closed or dropped, and the error then
/// hands back the very frame that was given. Whether it fails depends on the
/// receiver, so nothing else is claimed. (The call ends the process if the
/// count of queued frames overflows a machine word; memory runs out first.)
#[verifier::external_body]
fn enqueue(tx: &UnboundedSender<Frame>, frame: Frame) -> (r: Result<(), Frame>)
    ensures
        r matches Err(back) ==> back == frame,
{
    match tx.send(frame) {
        Ok(()) => Ok(()),
        Err(e) => Err(e.0),
    }
}

/// What the broker knows, as a value.
pub struct Registry {
    /// The delivery handle of each registered client.
    pub clients: Map<u64, UnboundedSender<Frame>>,
    /// The subscribers of each topic that was ever subscribed to.
    pub topics: Map<Seq<char>, Set<u64>>,
}

impl Registry {
    /// No client and no topic.
    pub open spec fn empty() -> Registry {
        Registry { clients: Map::empty(), topics: Map::empty() }
    }

    /// Whether `client_id` has a delivery handle.
    pub open spec fn is_registered(self, client_id: u64) -> bool {
        self.clients.contains_key(client_id)
    }

    /// The subscribers of `topic`; none where the topic is unknown.
    pub open spec fn subscribers(self, topic: Seq<char>) -> Set<u64> {
        if self.topics.contains_key(topic) {
            self.topics[topic]
        } else {
            Set::empty()
        }
    }

    /// Whether `client_id` is subscribed to `topic`.
    pub open spec fn is_subscribed(self, client_id: u64, topic: Seq<char>) -> bool {
        self.subscribers(topic).contains(client_id)
    }

    /// The clients that a publish to `topic` is delivered to: its subscribers
    /// that have a delivery handle.
    pub open spec fn recipients(self, topic: Seq<char>) -> Set<u64> {
        Set::new(|c: u64| self.is_subscribed(c, topic) && self.is_registered(c))
    }

    /// `client_id` gets the handle `tx`, in place of any it had.
    pub open spec fn register(self, client_id: u64, tx: UnboundedSender<Frame>) -> Registry {
        Registry { clients: self.clients.insert(client_id, tx), topics: self.topics }
    }

    /// `client_id` loses its handle and leaves every topic. The topics stay.
    pub open spec fn unregister(self, client_id: u64) -> Registry {
        Registry {
            clients: self.clients.remove(client_id),
            topics: self.topics.map_values(|s: Set<u64>| s.remove(client_id)),
        }
    }

    /// `client_id` joins `topic`, which comes into being if it was unknown.
    pub open spec fn subscribe(self, client_id: u64, topic: Seq<char>) -> Registry {
        Registry {
            clients: self.clients,
            topics: self.topics.insert(topic, self.subscribers(topic).insert(client_id)),
        }
    }

    /// `client_id` leaves `topic`. An unknown topic stays unknown, and a known
    /// one stays known even when its last subscriber leaves.
    pub open spec fn unsubscribe(self, client_id: u64, topic: Seq<char>) -> Registry {
        if self.topics.contains_key(topic) {
            Registry {
                clients: self.clients,
                topics: self.topics.insert(topic, self.topics[topic].remove(client_id)),
            }
        } else {
            self
        }
    }
}

/// A registered client that subscribes to a topic is among the recipients of
/// the next publish to that topic.
pub proof fn lemma_subscriber_receives(r: Registry, client_id: u64, topic: Seq<char>)
    requires
        r.is_registered(client_id),
    ensures
        r.subscribe(client_id, topic).recipients(topic).contains(client_id),
{
}

/// A client that is not subscribed to a topic is no recipient of a publish to
/// it, and subscribing to one topic makes nobody a recipient of another.
pub proof fn lemma_non_subscriber_receives_nothing(
    r: Registry,
    client_id: u64,
    topic: Seq<char>,
    other: Seq<char>,
)
    requires
        !r.is_subscribed(client_id, topic),
        other != topic,
    ensures
        !r.recipients(topic).contains(client_id),
        !r.subscribe(client_id, other).recipients(topic).contains(client_id),
        r.subscribe(client_id, other).recipients(topic) == r.recipients(topic),
{
    assert(r.subscribe(client_id, other).recipients(topic) =~= r.recipients(topic));
}

/// After a client unsubscribes from a topic it is no recipient of a publish
/// to that topic. Every other client, and every other topic, is as before.
pub proof fn lemma_unsubscribed_receives_nothing(
    r: Registry,
    client_id: u64,
    topic: Seq<char>,
    other: Seq<char>,
)
    requires
        other != topic,
    ensures
        !r.unsubscribe(client_id, topic).recipients(topic).contains(client_id),
        r.unsubscribe(client_id, topic).recipients(topic) == r.recipients(topic).remove(client_id),
        r.unsubscribe(client_id, topic).recipients(other) == r.recipients(other),
{
    let after = r.unsubscribe(client_id, topic);
    assert(after.recipients(topic) =~= r.recipients(topic).remove(client_id));
    assert(after.recipients(other) =~= r.recipients(other));
}

/// After a client is unregistered it is subscribed to nothing and is no
/// recipient of any publish, while the recipients among the other clients are
/// the same as before.
pub proof fn lemma_unregistered_receives_nothing(r: Registry, client_id: u64, topic: Seq<char>)
    ensures
        !r.unregister(client_id).is_registered(client_id),
        !r.unregister(client_id).is_subscribed(client_id, topic),
        !r.unregister(client_id).recipients(topic).contains(client_id),
        r.unregister(client_id).recipients(topic) == r.recipients(topic).remove(client_id),
{
    let after = r.unregister(client_id);
    assert(after.recipients(topic) =~= r.recipients(topic).remove(client_id));
}

/// Two registered clients that subscribe to one topic are both recipients of
/// a publish to it: each on its own account, whatever becomes of the other's
/// delivery.
pub proof fn lemma_two_subscribers_receive(r: Registry, first: u64, second: u64, topic: Seq<char>)
    requires
        r.is_registered(first),
        r.is_registered(second),
    ensures
        r.subscribe(first, topic).subscribe(second, topic).recipients(topic).contains(first),
        r.subscribe(first, topic).subscribe(second, topic).recipients(topic).contains(second),
        r.subscribe(first, topic).subscribe(second, topic).recipients(topic) == r.recipients(
            topic,
        ).insert(first).insert(second),
{
    let after = r.subscribe(first, topic).subscribe(second, topic);
    assert(after.recipients(topic) =~= r.recipients(topic).insert(first).insert(second));
}

/// Subscribing and registering are idempotent: doing either twice leaves what
/// doing it once leaves.
pub proof fn lemma_idempotent(
    r: Registry,
    client_id: u64,
    topic: Seq<char>,
    tx: UnboundedSender<Frame>,
)
    ensures
        r.subscribe(client_id, topic).subscribe(client_id, topic) == r.subscribe(client_id, topic),
        r.register(client_id, tx).register(client_id, tx) == r.register(client_id, tx),
        r.unsubscribe(client_id, topic).unsubscribe(client_id, topic) == r.unsubscribe(
            client_id,
            topic,
        ),
        r.unregister(client_id).unregister(client_id) == r.unregister(client_id),
{
    let s1 = r.subscribe(client_id, topic);
    assert(s1.subscribers(topic).insert(client_id) =~= s1.subscribers(topic));
    assert(s1.subscribe(client_id, topic).topics =~= s1.topics);
    let r1 = r.register(client_id, tx);
    assert(r1.register(client_id, tx).clients =~= r1.clients);
    let u1 = r.unsubscribe(client_id, topic);
    if r.topics.contains_key(topic) {
        assert(u1.topics[topic].remove(client_id) =~= u1.topics[topic]);
    }
    assert(u1.unsubscribe(client_id, topic).topics =~= u1.topics);
    let g1 = r.unregister(client_id);
    assert(g1.unregister(client_id).clients =~= g1.clients);
    assert forall|t: Seq<char>| #[trigger] g1.topics.contains_key(t) implies g1.unregister(
        client_id,
    ).topics[t] == g1.topics[t] by {
        assert(g1.topics[t].remove(client_id) =~= g1.topics[t]);
    }
    assert(g1.unregister(client_id).topics =~= g1.topics);
}

/// A topic, once known, stays known: no operation removes one, not even the
/// departure of its last subscriber.
pub proof fn lemma_topics_persist(
    r: Registry,
    known: Seq<char>,
    client_id: u64,
    topic: Seq<char>,
    tx: UnboundedSender<Frame>,
)
    requires
        r.topics.contains_key(known),
    ensures
        r.register(client_id, tx).topics.contains_key(known),
        r.unregister(client_id).topics.contains_key(known),
        r.subscribe(client_id, topic).topics.contains_key(known),
        r.unsubscribe(client_id, topic).topics.contains_key(known),
{
}

/// One attempt to hand a published frame to a subscriber.
#[derive(Debug, Clone, Copy, PartialEq, Eq, Structural)]
pub struct Delivery {
    /// The subscriber.
    pub client_id: u64,
    /// Whether its queue took the frame.
    pub accepted: bool,
}

impl Delivery {
    /// Records how the attempt to reach `client_id` ended: the queue took the
    /// frame, or it was closed and gave the frame back.
    pub fn record(client_id: u64, outcome: Result<(), Frame>) -> (d: Delivery)
        ensures
            d.client_id == client_id,
            d.accepted == (outcome is Ok),
    {
        Delivery { client_id, accepted: outcome.is_ok() }
    }
}

/// The clients that a report names, in the order of the attempts.
pub open spec fn addressees(report: Seq<Delivery>) -> Seq<u64> {
    report.map_values(|d: Delivery| d.client_id)
}

/// One topic and its subscribers.
struct Topic {
    name: String,
    subscribers: HashSet<u64>,
}

/// A topic entry as a value: the name and the set of subscribers.
type Entry = (Seq<char>, Set<u64>);

/// No name occurs in two entries.
spec fn distinct_names(entries: Seq<Entry>) -> bool {
    forall|i: int, j: int| 0 <= i < j < entries.len() ==> entries[i].0 != entries[j].0
}

/// Some entry holds `name`.
spec fn names(entries: Seq<Entry>, name: Seq<char>) -> bool {
    exists|i: int| 0 <= i < entries.len() && entries[i].0 == name
}

/// The place of an entry that holds `name`.
spec fn place(entries: Seq<Entry>, name: Seq<char>) -> int {
    choose|i: int| 0 <= i < entries.len() && entries[i].0 == name
}

/// The entries as a map from name to subscribers.
spec fn as_map(entries: Seq<Entry>) -> Map<Seq<char>, Set<u64>> {
    Map::new(
        |name: Seq<char>| names(entries, name),
        |name: Seq<char>| entries[place(entries, name)].1,
    )
}

/// With distinct names, the map holds each entry under its name and nothing
/// else.
proof fn lemma_as_map(entries: Seq<Entry>)
    requires
        distinct_names(entries),
    ensures
        forall|k: int|
            0 <= k < entries.len() ==> {
                &&& as_map(entries).contains_key(#[trigger] entries[k].0)
                &&& as_map(entries)[entries[k].0] == entries[k].1
            },
        forall|name: Seq<char>| #[trigger]
            as_map(entries).contains_key(name) ==> {
                &&& 0 <= place(entries, name) < entries.len()
                &&& entries[place(entries, name)].0 == name
            },
{
    assert forall|k: int| 0 <= k < entries.len() implies {
        &&& as_map(entries).contains_key(#[trigger] entries[k].0)
        &&& as_map(entries)[entries[k].0] == entries[k].1
    } by {
        assert(names(entries, entries[k].0));
        let p = place(entries, entries[k].0);
        if p < k {
            assert(entries[p].0 != entries[k].0);
        } else if k < p {
            assert(entries[k].0 != entries[p].0);
        }
    }
}

/// Replacing the subscribers of one entry replaces them in the map.
proof fn lemma_entry_changed(before: Seq<Entry>, after: Seq<Entry>, i: int, subscribers: Set<u64>)
    requires
        distinct_names(before),
        0 <= i < before.len(),
        after == before.update(i, (before[i].0, subscribers)),
    ensures
        distinct_names(after),
        as_map(after) == as_map(before).insert(before[i].0, subscribers),
{
    assert(forall|k: int| 0 <= k < after.len() ==> (#[trigger] after[k]).0 == before[k].0);
    lemma_as_map(before);
    lemma_as_map(after);
    let target = as_map(before).insert(before[i].0, subscribers);
    assert forall|name: Seq<char>| #[trigger] as_map(after).contains_key(name) implies {
        &&& target.contains_key(name)
        &&& target[name] == as_map(after)[name]
    } by {
        let p = place(after, name);
        assert(before[p].0 == name);
    }
    assert forall|name: Seq<char>| #[trigger] target.contains_key(name) implies as_map(
        after,
    ).contains_key(name) by {
        if name != before[i].0 {
            let p = place(before, name);
            assert(after[p].0 == name);
        } else {
            assert(after[i].0 == name);
        }
    }
    assert(as_map(after) =~= target);
}

/// Appending an entry with a new name adds it to the map.
proof fn lemma_entry_added(before: Seq<Entry>, name: Seq<char>, subscribers: Set<u64>)
    requires
        distinct_names(before),
        !as_map(before).contains_key(name),
    ensures
        distinct_names(before.push((name, subscribers))),
        as_map(before.push((name, subscribers))) == as_map(before).insert(name, subscribers),
{
    let after = before.push((name, subscribers));
    let last = before.len() as int;
    lemma_as_map(before);
    assert(forall|k: int| 0 <= k < last ==> #[trigger] after[k] == before[k]);
    assert(after[last] == (name, subscribers));
    assert(distinct_names(after)) by {
        assert forall|i: int, j: int| 0 <= i < j < after.len() implies after[i].0
            != after[j].0 by {
            if j == last {
                assert(as_map(before).contains_key(before[i].0));
            } else {
                assert(before[i].0 != before[j].0);
            }
        }
    }
    lemma_as_map(after);
    let target = as_map(before).insert(name, subscribers);
    assert forall|n: Seq<char>| #[trigger] as_map(after).contains_key(n) implies {
        &&& target.contains_key(n)
        &&& target[n] == as_map(after)[n]
    } by {
        let p = place(after, n);
        if p < last {
            assert(before[p].0 == n);
        }
    }
    assert forall|n: Seq<char>| #[trigger] target.contains_key(n) implies as_map(
        after,
    ).contains_key(n) by {
        if n != name {
            let p = place(before, n);
            assert(after[p].0 == n);
        } else {
            assert(after[last].0 == n);
        }
    }
    assert(as_map(after) =~= target);
}

/// Taking one client out of the subscribers of every entry takes it out of
/// every set of the map.
proof fn lemma_client_removed(before: Seq<Entry>, after: Seq<Entry>, client_id: u64)
    requires
        distinct_names(before),
        after.len() == before.len(),
        forall|k: int|
            0 <= k < before.len() ==> #[trigger] after[k] == (
                before[k].0,
                before[k].1.remove(client_id),
            ),
    ensures
        distinct_names(after),
        as_map(after) == as_map(before).map_values(|s: Set<u64>| s.remove(client_id)),
{
    assert(forall|k: int| 0 <= k < after.len() ==> (#[trigger] after[k]).0 == before[k].0);
    lemma_as_map(before);
    lemma_as_map(after);
    let target = as_map(before).map_values(|s: Set<u64>| s.remove(client_id));
    assert forall|name: Seq<char>| #[trigger] as_map(after).contains_key(name) implies {
        &&& target.contains_key(name)
        &&& target[name] == as_map(after)[name]
    } by {
        let p = place(after, name);
        assert(before[p].0 == name);
    }
    assert forall|name: Seq<char>| #[trigger] target.contains_key(name) implies as_map(
        after,
    ).contains_key(name) by {
        let p = place(before, name);
        assert(after[p].0 == name);
    }
    assert(as_map(after) =~= target);
}

/// The shared state of the server: who is connected and who listens to what.
///
/// Topics are created by the first subscription and never removed, also when
/// their last subscriber leaves.
pub struct Broker {
    clients: HashMap<u64, UnboundedSender<Frame>>,
    topics: Vec<Topic>,
}

impl View for Broker {
    type V = Registry;

    closed spec fn view(&self) -> Registry {
        Registry { clients: self.clients@, topics: as_map(self.entries()) }
    }
}

impl Broker {
    /// The topic entries as values.
    spec fn entries(&self) -> Seq<Entry> {
        self.topics@.map_values(|t: Topic| (t.name@, t.subscribers@))
    }

    /// No topic is held twice.
    pub closed spec fn wf(&self) -> bool {
        distinct_names(self.entries())
    }

    /// The place of the entry that holds `topic`, if one does.
    fn find_topic(&self, topic: &str) -> (found: Option<usize>)
        requires
            self.wf(),
        ensures
            match found {
                Some(i) => {
                    &&& i < self.topics@.len()
                    &&& self.topics@[i as int].name@ == topic@
                    &&& self@.topics.contains_key(topic@)
                    &&& self@.topics[topic@] == self.topics@[i as int].subscribers@
                },
                None => !self@.topics.contains_key(topic@),
            },
    {
        let mut i: usize = 0;
        while i < self.topics.len()
            invariant
                self.wf(),
                i <= self.topics@.len(),
                forall|k: int| 0 <= k < i ==> self.topics@[k].name@ != topic@,
            decreases self.topics@.len() - i,
        {
            if same_text(self.topics[i].name.as_str(), topic) {
                proof {
                    lemma_as_map(self.entries());
                    assert(self.entries()[i as int] == (
                        topic@,
                        self.topics@[i as int].subscribers@,
                    ));
                }
                return Some(i);
            }
            i += 1;
        }
        proof {
            lemma_as_map(self.entries());
            assert(forall|k: int|
                0 <= k < self.entries().len() ==> self.entries()[k].0 != topic@);
        }
        None
    }

    /// A broker that knows no client and no topic.
    pub fn new() -> (broker: Broker)
        ensures
            broker.wf(),
            broker@ == Registry::empty(),
    {
        let broker = Broker { clients: HashMap::new(), topics: Vec::new() };
        assert(broker@.topics =~= Map::empty());
        broker
    }

    /// Whether `topic` is known: somebody subscribed to it at some time.
    pub fn has_topic(&self, topic: &str) -> (known: bool)
        requires
            self.wf(),
        ensures
            known == self@.topics.contains_key(topic@),
    {
        self.find_topic(topic).is_some()
    }

    /// Whether `client_id` is among the subscribers of `topic`.
    pub fn is_subscribed(&self, client_id: u64, topic: &str) -> (subscribed: bool)
        requires
            self.wf(),
        ensures
            subscribed == self@.is_subscribed(client_id, topic@),
    {
        match self.find_topic(topic) {
            Some(i) => self.topics[i].subscribers.contains(&client_id),
            None => false,
        }
    }

    /// The delivery handle of `client_id`, if it is registered.
    pub fn client_tx(&self, client_id: u64) -> (tx: Option<&UnboundedSender<Frame>>)
        requires
            self.wf(),
        ensures
            match tx {
                Some(tx) => self@.is_registered(client_id) && *tx == self@.clients[client_id],
                None => !self@.is_registered(client_id),
            },
    {
        self.clients.get(&client_id)
    }

    /// Registers `client_id` with its delivery handle, replacing any handle
    /// it had.
    pub fn register_client(&mut self, client_id: u64, tx: UnboundedSender<Frame>)
        requires
            old(self).wf(),
        ensures
            final(self).wf(),
            final(self)@ == old(self)@.register(client_id, tx),
    {
        self.clients.insert(client_id, tx);
    }

    /// Removes `client_id` from the registry and from the subscribers of
    /// every topic.
    pub fn unregister_client(&mut self, client_id: u64)
        requires
            old(self).wf(),
        ensures
            final(self).wf(),
            final(self)@ == old(self)@.unregister(client_id),
    {
        self.clients.remove(&client_id);
        let mut i: usize = 0;
        while i < self.topics.len()
            invariant
                i <= self.topics@.len(),
                self.topics@.len() == old(self).topics@.len(),
                self.clients@ == old(self).clients@.remove(client_id),
                forall|k: int|
                    0 <= k < self.topics@.len() ==> self.topics@[k].name@ == old(
                        self,
                    ).topics@[k].name@,
                forall|k: int|
                    0 <= k < i ==> self.topics@[k].subscribers@ == old(
                        self,
                    ).topics@[k].subscribers@.remove(client_id),
                forall|k: int|
                    i <= k < self.topics@.len() ==> self.topics@[k].subscribers@ == old(
                        self,
                    ).topics@[k].subscribers@,
            decreases self.topics@.len() - i,
        {
            self.topics[i].subscribers.remove(&client_id);
            i += 1;
        }
        proof {
            lemma_client_removed(old(self).entries(), self.entries(), client_id);
        }
    }

    /// Adds `client_id` to the subscribers of `topic`, creating the topic if
    /// it is new. A second subscription changes nothing.
    pub fn subscribe(&mut self, client_id: u64, topic: String)
        requires
            old(self).wf(),
        ensures
            final(self).wf(),
            final(self)@ == old(self)@.subscribe(client_id, topic@),
    {
        match self.find_topic(topic.as_str()) {
            Some(i) => {
                self.topics[i].subscribers.insert(client_id);
                proof {
                    let joined = old(self).entries()[i as int].1.insert(client_id);
                    assert(self.entries() =~= old(self).entries().update(
                        i as int,
                        (topic@, joined),
                    ));
                    lemma_entry_changed(old(self).entries(), self.entries(), i as int, joined);
                }
            },
            None => {
                let mut subscribers = HashSet::new();
                subscribers.insert(client_id);
                self.topics.push(Topic { name: topic, subscribers });
                proof {
                    let alone = Set::<u64>::empty().insert(client_id);
                    assert(self.entries() =~= old(self).entries().push((topic@, alone)));
                    lemma_entry_added(old(self).entries(), topic@, alone);
                }
            },
        }
    }

    /// Removes `client_id` from the subscribers of `topic`. Nothing happens
    /// where the topic is unknown or the client is no subscriber of it.
    pub fn unsubscribe(&mut self, client_id: u64, topic: &str)
        requires
            old(self).wf(),
        ensures
            final(self).wf(),
            final(self)@ == old(self)@.unsubscribe(client_id, topic@),
    {
        match self.find_topic(topic) {
            Some(i) => {
                self.topics[i].subscribers.remove(&client_id);
                proof {
                    let left = old(self).entries()[i as int].1.remove(client_id);
                    assert(self.entries() =~= old(self).entries().update(i as int, (topic@, left)));
                    lemma_entry_changed(old(self).entries(), self.entries(), i as int, left);
                }
            },
            None => {},
        }
    }

    /// Hands a copy of `frame` to every subscriber of `topic` that is
    /// registered, once each, in no particular order. A queue that refuses
    /// the frame does not stop the others and is not unsubscribed; the report
    /// tells which queues took it.
    pub fn publish(&self, topic: &str, frame: Frame) -> (report: Vec<Delivery>)
        requires
            self.wf(),
        ensures
            addressees(report@).no_duplicates(),
            addressees(report@).to_set() == self@.recipients(topic@),
            report@.len() == self@.recipients(topic@).len(),
    {
        let mut report: Vec<Delivery> = Vec::new();
        match self.find_topic(topic) {
            Some(i) => {
                let subscribers = &self.topics[i].subscribers;
                let ghost mut visited: Set<u64> = Set::empty();
                for id in it: subscribers.iter()
                    invariant
                        it.seq().no_duplicates(),
                        it.seq().unref().to_set() == subscribers@,
                        forall|m: int|
                            0 <= m < it.index() ==> visited.contains(*#[trigger] it.seq()[m]),
                        forall|c: u64| #[trigger]
                            visited.contains(c) ==> exists|m: int|
                                0 <= m < it.index() && *it.seq()[m] == c,
                        it.index() == it.seq().len() ==> visited == subscribers@,
                        forall|j: int|
                            0 <= j < report@.len() ==> {
                                &&& visited.contains(#[trigger] report@[j].client_id)
                                &&& self.clients@.contains_key(report@[j].client_id)
                            },
                        forall|c: u64|
                            visited.contains(c) && self.clients@.contains_key(c) ==> exists|j: int|
                                0 <= j < report@.len() && #[trigger] report@[j].client_id == c,
                        forall|j: int, k: int|
                            0 <= j < k < report@.len() ==> report@[j].client_id
                                != report@[k].client_id,
                {
                    assert(!visited.contains(*id));
                    let ghost before = report@;
                    proof {
                        visited = visited.insert(*id);
                    }
                    if let Some(tx) = self.clients.get(id) {
                        let outcome = enqueue(tx, frame.clone());
                        report.push(Delivery::record(*id, outcome));
                        assert(report@[before.len() as int].client_id == *id);
                        assert forall|c: u64|
                            visited.contains(c) && self.clients@.contains_key(c) implies exists|
                            j: int,
                        |
                            0 <= j < report@.len() && #[trigger] report@[j].client_id == c by {
                            if c != *id {
                                let j = choose|j: int|
                                    0 <= j < before.len() && #[trigger] before[j].client_id == c;
                                assert(report@[j].client_id == c);
                            }
                        }
                    }
                    assert(it.index() + 1 == it.seq().len() ==> visited =~= subscribers@) by {
                        if it.index() + 1 == it.seq().len() {
                            let all = it.seq().unref();
                            assert forall|c: u64| subscribers@.contains(c) implies visited.contains(
                                c,
                            ) by {
                                assert(all.to_set().contains(c));
                                let m = choose|m: int| 0 <= m < all.len() && all[m] == c;
                                assert(*it.seq()[m] == c);
                            }
                            assert forall|c: u64| visited.contains(c) implies subscribers@.contains(
                                c,
                            ) by {
                                let m = choose|m: int| 0 <= m < all.len() && *it.seq()[m] == c;
                                assert(all[m] == c);
                                assert(all.to_set().contains(c));
                            }
                        }
                    }
                }
                proof {
                    let ids = addressees(report@);
                    assert(self@.subscribers(topic@) == subscribers@);
                    assert forall|c: u64| ids.to_set().contains(c) implies self@.recipients(
                        topic@,
                    ).contains(c) by {
                        let j = choose|j: int| 0 <= j < ids.len() && ids[j] == c;
                        assert(report@[j].client_id == c);
                    }
                    assert forall|c: u64|
                        self@.recipients(topic@).contains(c) implies ids.to_set().contains(c) by {
                        let j = choose|j: int| 0 <= j < report@.len() && report@[j].client_id == c;
                        assert(ids[j] == c);
                    }
                    assert(ids.to_set() =~= self@.recipients(topic@));
                    assert forall|j: int, k: int| 0 <= j < k < ids.len() implies ids[j]
                        != ids[k] by {
                        assert(report@[j].client_id != report@[k].client_id);
                    }
                }
            },
            None => {
                proof {
                    assert(addressees(report@).to_set() =~= self@.recipients(topic@));
                }
            },
        }
        proof {
            addressees(report@).unique_seq_to_set();
        }
        report
    }
}

} // verus!
