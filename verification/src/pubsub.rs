//! Topic registry with direct-dispatch subscriptions.
//!
//! A manager owns its topics and subscriptions exclusively; subscribers are
//! identified by numeric ids.  Publishing returns, in subscription order, the
//! ids of every live subscription of the topic at call time: the caller —
//! who keeps the handlers — invokes one handler per returned id,
//! synchronously.

use vstd::prelude::*;

verus! {

/// One published message: a borrowed byte body.
#[derive(Clone, Copy)]
pub struct TopicMessage<'a> {
    pub body: &'a [u8],
}

/// A named topic.
pub trait Topic: Sized {
    /// The topic's name.
    spec fn spec_name(&self) -> Seq<char>;

    /// Returns the topic's name.
    fn name(&self) -> (r: String)
        ensures
            r@ == self.spec_name(),
    ;
}

/// The in-memory topic: a name and nothing else.
pub struct MemTopic {
    pub topic_name: String,
}

impl MemTopic {
    /// A topic with this name.
    pub fn new(topic_name: String) -> (t: MemTopic)
        ensures
            t.topic_name@ == topic_name@,
    {
        MemTopic { topic_name }
    }
}

impl Topic for MemTopic {
    open spec fn spec_name(&self) -> Seq<char> {
        self.topic_name@
    }

    fn name(&self) -> (r: String) {
        self.topic_name.clone()
    }
}

/// One live subscription: the topic it listens to and its id.  The handler
/// itself stays with the caller, keyed by the id.
pub struct TopicSubscription {
    pub topic: String,
    pub id: usize,
}

/// Read access to a subscription.
pub trait Subscription: Sized {
    /// The subscribed topic's name.
    spec fn spec_topic(&self) -> Seq<char>;

    /// The subscription's id.
    spec fn spec_id(&self) -> usize;

    /// Returns the subscribed topic's name.
    fn topic(&self) -> (r: String)
        ensures
            r@ == self.spec_topic(),
    ;

    /// Returns the subscription's id.
    fn id(&self) -> (r: usize)
        ensures
            r == self.spec_id(),
    ;
}

impl Subscription for TopicSubscription {
    open spec fn spec_topic(&self) -> Seq<char> {
        self.topic@
    }

    open spec fn spec_id(&self) -> usize {
        self.id
    }

    fn topic(&self) -> (r: String) {
        self.topic.clone()
    }

    fn id(&self) -> (r: usize) {
        self.id
    }
}

/// Some topic in the registry has this name.
pub open spec fn has_topic(ts: Seq<MemTopic>, name: Seq<char>) -> bool {
    exists|i: int| 0 <= i < ts.len() && (#[trigger] ts[i]).topic_name@ == name
}

/// The ids of the subscriptions of this topic, in subscription order.
pub open spec fn matching_ids(subs: Seq<TopicSubscription>, name: Seq<char>) -> Seq<usize>
    decreases subs.len(),
{
    if subs.len() == 0 {
        Seq::empty()
    } else {
        let rest = matching_ids(subs.drop_first(), name);
        if subs[0].topic@ == name {
            seq![subs[0].id] + rest
        } else {
            rest
        }
    }
}

/// The subscriptions that do not carry this id, in order.
pub open spec fn without_id(subs: Seq<TopicSubscription>, id: usize) -> Seq<TopicSubscription>
    decreases subs.len(),
{
    if subs.len() == 0 {
        Seq::empty()
    } else {
        let rest = without_id(subs.drop_first(), id);
        if subs[0].id == id {
            rest
        } else {
            seq![subs[0]] + rest
        }
    }
}

/// Splitting the subscription list splits the matching ids.
pub proof fn lemma_matching_ids_concat(
    s1: Seq<TopicSubscription>,
    s2: Seq<TopicSubscription>,
    name: Seq<char>,
)
    ensures
        matching_ids(s1 + s2, name) == matching_ids(s1, name) + matching_ids(s2, name),
    decreases s1.len(),
{
    if s1.len() == 0 {
        assert(s1 + s2 =~= s2);
        assert(matching_ids(s1, name) + matching_ids(s2, name) =~= matching_ids(s2, name));
    } else {
        assert((s1 + s2).drop_first() =~= s1.drop_first() + s2);
        lemma_matching_ids_concat(s1.drop_first(), s2, name);
        assert(matching_ids(s1 + s2, name) =~= matching_ids(s1, name) + matching_ids(s2, name));
    }
}

/// Splitting the subscription list splits the survivors of an unsubscribe.
pub proof fn lemma_without_id_concat(
    s1: Seq<TopicSubscription>,
    s2: Seq<TopicSubscription>,
    id: usize,
)
    ensures
        without_id(s1 + s2, id) == without_id(s1, id) + without_id(s2, id),
    decreases s1.len(),
{
    if s1.len() == 0 {
        assert(s1 + s2 =~= s2);
        assert(without_id(s1, id) + without_id(s2, id) =~= without_id(s2, id));
    } else {
        assert((s1 + s2).drop_first() =~= s1.drop_first() + s2);
        lemma_without_id_concat(s1.drop_first(), s2, id);
        assert(without_id(s1 + s2, id) =~= without_id(s1, id) + without_id(s2, id));
    }
}

/// Keeps named topics.
pub trait TopicCreator: Sized {
    /// The registered topics, in registration order.
    spec fn spec_topics(&self) -> Seq<MemTopic>;

    /// Registers a topic under this name; a name already registered stays as
    /// it is.
    fn create_topic(&mut self, topic_name: String)
        ensures
            (if has_topic(old(self).spec_topics(), topic_name@) {
                *final(self) == *old(self)
            } else {
                &&& final(self).spec_topics() == old(self).spec_topics().push(
                    final(self).spec_topics().last(),
                )
                &&& final(self).spec_topics().last().topic_name@ == topic_name@
            }),
    ;

    /// Looks a topic up by name: some topic with that name exactly when one
    /// is registered.
    fn get_topic(&self, topic_name: String) -> (r: Option<&MemTopic>)
        ensures
            r is Some <==> has_topic(self.spec_topics(), topic_name@),
            r matches Some(t) ==> t.topic_name@ == topic_name@,
    ;
}

/// Publish to, subscribe to and unsubscribe from topics.
pub trait TopicManager: TopicCreator {
    /// The live subscriptions, in subscription order.
    spec fn spec_subs(&self) -> Seq<TopicSubscription>;

    /// The next subscription id.
    spec fn spec_counter(&self) -> nat;

    /// Returns, in subscription order, the ids of every subscription of this
    /// topic live at call time: the caller invokes those subscribers'
    /// handlers on the message, synchronously.  Nothing is changed.
    fn publish(&mut self, topic_name: String, message: TopicMessage) -> (r: Vec<usize>)
        ensures
            *final(self) == *old(self),
            r@ == matching_ids(old(self).spec_subs(), topic_name@),
    ;

    /// Subscribes to the named topic under a fresh id: some subscription
    /// exactly when the topic exists and ids are not exhausted.
    fn subscribe(&mut self, name: String) -> (r: Option<TopicSubscription>)
        ensures
            final(self).spec_topics() == old(self).spec_topics(),
            (if has_topic(old(self).spec_topics(), name@) && old(self).spec_counter()
                < usize::MAX {
                &&& r matches Some(s) && s.topic@ == name@ && s.id == old(self).spec_counter()
                &&& final(self).spec_counter() == old(self).spec_counter() + 1
                &&& final(self).spec_subs() == old(self).spec_subs().push(
                    final(self).spec_subs().last(),
                )
                &&& final(self).spec_subs().last().topic@ == name@
                &&& final(self).spec_subs().last().id == old(self).spec_counter()
            } else {
                r is None && *final(self) == *old(self)
            }),
    ;

    /// Drops every subscription carrying this handle's id.
    fn unsubscribe(&mut self, handle: TopicSubscription)
        ensures
            final(self).spec_topics() == old(self).spec_topics(),
            final(self).spec_counter() == old(self).spec_counter(),
            final(self).spec_subs() == without_id(old(self).spec_subs(), handle.id),
    ;
}

/// The in-process topic manager: owns topics, subscriptions and the id
/// counter.
pub struct LocalTopicManager {
    topics: Vec<MemTopic>,
    subscriptions: Vec<TopicSubscription>,
    subscription_id_counter: usize,
}

impl LocalTopicManager {
    /// An empty manager.
    pub fn new() -> (m: LocalTopicManager)
        ensures
            m.spec_topics() == Seq::<MemTopic>::empty(),
            m.spec_subs() == Seq::<TopicSubscription>::empty(),
            m.spec_counter() == 0,
    {
        LocalTopicManager {
            topics: Vec::new(),
            subscriptions: Vec::new(),
            subscription_id_counter: 0,
        }
    }

    /// The index of a topic with this name.
    fn find_topic(&self, name: &str) -> (r: Option<usize>)
        ensures
            (match r {
                Some(i) => i < self.spec_topics().len() && self.spec_topics()[i as int].topic_name@
                    == name@ && has_topic(self.spec_topics(), name@),
                None => !has_topic(self.spec_topics(), name@),
            }),
    {
        let key: String = name.to_owned();
        let n = self.topics.len();
        let mut i: usize = 0;
        while i < n
            invariant
                n == self.spec_topics().len(),
                i <= n,
                key@ == name@,
                forall|j: int| 0 <= j < i ==> (#[trigger] self.spec_topics()[j]).topic_name@ != name@,
            decreases n - i,
        {
            if self.topics[i].topic_name == key {
                return Some(i);
            }
            i = i + 1;
        }
        None
    }
}

impl TopicCreator for LocalTopicManager {
    closed spec fn spec_topics(&self) -> Seq<MemTopic> {
        self.topics@
    }

    fn create_topic(&mut self, topic_name: String) {
        match self.find_topic(topic_name.as_str()) {
            Some(_) => {},
            None => {
                self.topics.push(MemTopic { topic_name });
            },
        }
    }

    fn get_topic(&self, topic_name: String) -> (r: Option<&MemTopic>) {
        match self.find_topic(topic_name.as_str()) {
            Some(i) => Some(&self.topics[i]),
            None => None,
        }
    }
}

impl TopicManager for LocalTopicManager {
    closed spec fn spec_subs(&self) -> Seq<TopicSubscription> {
        self.subscriptions@
    }

    closed spec fn spec_counter(&self) -> nat {
        self.subscription_id_counter as nat
    }

    fn publish(&mut self, topic_name: String, message: TopicMessage) -> (r: Vec<usize>) {
        let mut ids: Vec<usize> = Vec::new();
        let n = self.subscriptions.len();
        let mut i: usize = 0;
        while i < n
            invariant
                n == self.spec_subs().len(),
                *self == *old(self),
                ids@ == matching_ids(self.spec_subs().subrange(0, i as int), topic_name@),
                i <= n,
            decreases n - i,
        {
            if self.subscriptions[i].topic == topic_name {
                ids.push(self.subscriptions[i].id);
            }
            proof {
                let subs = self.spec_subs();
                let pre = subs.subrange(0, i as int);
                let one = seq![subs[i as int]];
                assert(subs.subrange(0, i + 1 as int) =~= pre + one);
                lemma_matching_ids_concat(pre, one, topic_name@);
                assert(one.drop_first() =~= Seq::<TopicSubscription>::empty());
                assert(matching_ids(Seq::<TopicSubscription>::empty(), topic_name@) == Seq::<
                    usize,
                >::empty());
                assert(matching_ids(one.drop_first(), topic_name@) == Seq::<usize>::empty());
                if subs[i as int].topic@ == topic_name@ {
                    assert(matching_ids(one, topic_name@) =~= seq![subs[i as int].id]);
                    assert(ids@ =~= matching_ids(pre, topic_name@) + seq![subs[i as int].id]);
                } else {
                    assert(matching_ids(one, topic_name@) =~= Seq::<usize>::empty());
                    assert(ids@ =~= matching_ids(pre, topic_name@) + matching_ids(
                        one,
                        topic_name@,
                    ));
                }
            }
            i = i + 1;
        }
        proof {
            assert(self.spec_subs().subrange(0, n as int) =~= self.spec_subs());
        }
        ids
    }

    fn subscribe(&mut self, name: String) -> (r: Option<TopicSubscription>) {
        match self.find_topic(name.as_str()) {
            None => None,
            Some(_) => {
                if self.subscription_id_counter == usize::MAX {
                    return None;
                }
                let id = self.subscription_id_counter;
                let subscription = TopicSubscription { topic: name.clone(), id };
                self.subscriptions.push(subscription);
                self.subscription_id_counter = id + 1;
                Some(TopicSubscription { topic: name, id })
            },
        }
    }

    fn unsubscribe(&mut self, handle: TopicSubscription) {
        let n = self.subscriptions.len();
        let mut kept: Vec<TopicSubscription> = Vec::new();
        let mut i: usize = 0;
        while i < n
            invariant
                n == self.spec_subs().len(),
                *self == *old(self),
                kept@ == without_id(self.spec_subs().subrange(0, i as int), handle.id),
                i <= n,
            decreases n - i,
        {
            let sub = &self.subscriptions[i];
            proof {
                let subs = self.spec_subs();
                let pre = subs.subrange(0, i as int);
                let one = seq![subs[i as int]];
                assert(subs.subrange(0, i + 1 as int) =~= pre + one);
                lemma_without_id_concat(pre, one, handle.id);
                assert(one.drop_first() =~= Seq::<TopicSubscription>::empty());
                assert(without_id(Seq::<TopicSubscription>::empty(), handle.id) == Seq::<
                    TopicSubscription,
                >::empty());
                assert(without_id(one.drop_first(), handle.id) == Seq::<
                    TopicSubscription,
                >::empty());
                if subs[i as int].id == handle.id {
                    assert(without_id(one, handle.id) =~= Seq::<TopicSubscription>::empty());
                } else {
                    assert(without_id(one, handle.id) =~= one);
                }
            }
            if sub.id != handle.id {
                let copy = TopicSubscription { topic: sub.topic.clone(), id: sub.id };
                proof {
                    assert(copy == self.spec_subs()[i as int]);
                }
                kept.push(copy);
                proof {
                    let subs = self.spec_subs();
                    let pre = subs.subrange(0, i as int);
                    assert(kept@ =~= without_id(pre, handle.id) + seq![subs[i as int]]);
                }
            }
            i = i + 1;
        }
        proof {
            assert(self.spec_subs().subrange(0, n as int) =~= self.spec_subs());
        }
        self.subscriptions = kept;
    }
}

} // verus!
