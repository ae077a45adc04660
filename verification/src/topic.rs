//! Queue-backed topics: each subscription owns one queue, named after the
//! subscriber, and publishing appends the message to the queue of every
//! matching subscription.

use vstd::prelude::*;
use crate::queue::{
    has_queue, queue_index, queues_wf, MemQueue, MemQueueWorker, Queue, QueueMessage, QueueWorker,
};

verus! {

/// A named topic.
pub trait Topic: Sized {
    /// The topic's address.
    spec fn spec_topic_address(&self) -> Seq<char>;

    /// Returns the topic's address.
    fn topic_address(&self) -> (r: String)
        ensures
            r@ == self.spec_topic_address(),
    ;
}

/// The in-memory topic: a name and nothing else.
pub struct MemTopic {
    pub topic_address: String,
}

impl MemTopic {
    /// A topic with this name.
    pub fn new(topic_name: String) -> (t: MemTopic)
        ensures
            t.topic_address@ == topic_name@,
    {
        MemTopic { topic_address: topic_name }
    }
}

impl Topic for MemTopic {
    open spec fn spec_topic_address(&self) -> Seq<char> {
        self.topic_address@
    }

    fn topic_address(&self) -> (r: String) {
        self.topic_address.clone()
    }
}

/// One subscriber's binding: a topic, the queue that buffers its messages,
/// and the subscriber's own address.  The queue is the subscriber's own and
/// carries its address.
pub struct TopicSubscription {
    pub topic: String,
    pub queue: String,
    pub subscriber_address: String,
}

/// Read access to a subscription's three addresses.
pub trait Subscription: Sized {
    /// The subscribed topic's address.
    spec fn spec_topic(&self) -> Seq<char>;

    /// The buffering queue's address.
    spec fn spec_queue(&self) -> Seq<char>;

    /// The subscriber's address.
    spec fn spec_subscriber_address(&self) -> Seq<char>;

    /// Returns the subscribed topic's address.
    fn topic(&self) -> (r: String)
        ensures
            r@ == self.spec_topic(),
    ;

    /// Returns the buffering queue's address.
    fn queue(&self) -> (r: String)
        ensures
            r@ == self.spec_queue(),
    ;

    /// Returns the subscriber's address.
    fn subscriber_address(&self) -> (r: String)
        ensures
            r@ == self.spec_subscriber_address(),
    ;
}

impl Subscription for TopicSubscription {
    open spec fn spec_topic(&self) -> Seq<char> {
        self.topic@
    }

    open spec fn spec_queue(&self) -> Seq<char> {
        self.queue@
    }

    open spec fn spec_subscriber_address(&self) -> Seq<char> {
        self.subscriber_address@
    }

    fn topic(&self) -> (r: String) {
        self.topic.clone()
    }

    fn queue(&self) -> (r: String) {
        self.queue.clone()
    }

    fn subscriber_address(&self) -> (r: String) {
        self.subscriber_address.clone()
    }
}

/// The character of one decimal digit.
pub open spec fn digit_char(d: nat) -> char
    recommends
        d < 10,
{
    if d == 0 {
        '0'
    } else if d == 1 {
        '1'
    } else if d == 2 {
        '2'
    } else if d == 3 {
        '3'
    } else if d == 4 {
        '4'
    } else if d == 5 {
        '5'
    } else if d == 6 {
        '6'
    } else if d == 7 {
        '7'
    } else if d == 8 {
        '8'
    } else {
        '9'
    }
}

/// The decimal digits of `n`, most significant first, without leading zeros.
pub open spec fn dec_digits(n: nat) -> Seq<char>
    decreases n,
{
    if n < 10 {
        seq![digit_char(n)]
    } else {
        dec_digits(n / 10).push(digit_char(n % 10))
    }
}

/// A subscriber's address: the subscription counter's decimal digits, an
/// underscore, then the topic's address.
pub open spec fn subscriber_name(counter: nat, topic: Seq<char>) -> Seq<char> {
    dec_digits(counter) + seq!['_'] + topic
}

/// A number has at least one digit, and exactly one below ten.
pub proof fn lemma_dec_digits_len(n: nat)
    ensures
        dec_digits(n).len() >= 1,
        n < 10 <==> dec_digits(n).len() == 1,
    decreases n,
{
    if n >= 10 {
        lemma_dec_digits_len(n / 10);
    }
}

/// No decimal digit is an underscore.
pub proof fn lemma_dec_digits_no_underscore(n: nat)
    ensures
        forall|i: int| 0 <= i < dec_digits(n).len() ==> (#[trigger] dec_digits(n)[i]) != '_',
    decreases n,
{
    if n >= 10 {
        lemma_dec_digits_no_underscore(n / 10);
        assert(forall|i: int|
            0 <= i < dec_digits(n).len() - 1 ==> (#[trigger] dec_digits(n)[i]) == dec_digits(
                n / 10,
            )[i]);
    }
}

/// Distinct numbers have distinct digit strings: there are no leading zeros.
pub proof fn lemma_dec_digits_injective(a: nat, b: nat)
    requires
        dec_digits(a) == dec_digits(b),
    ensures
        a == b,
    decreases a,
{
    lemma_dec_digits_len(a);
    lemma_dec_digits_len(b);
    if a < 10 && b < 10 {
        assert(dec_digits(a)[0] == digit_char(a));
        assert(dec_digits(b)[0] == digit_char(b));
    } else if a >= 10 && b >= 10 {
        assert(dec_digits(a).last() == digit_char(a % 10));
        assert(dec_digits(b).last() == digit_char(b % 10));
        assert(a % 10 == b % 10);
        assert(dec_digits(a).drop_last() =~= dec_digits(a / 10));
        assert(dec_digits(b).drop_last() =~= dec_digits(b / 10));
        lemma_dec_digits_injective(a / 10, b / 10);
    }
}

/// Two equal subscriber names carry the same counter: the digits run up to
/// the first underscore, and digit strings determine their number.
pub proof fn lemma_subscriber_name_counter(c1: nat, t1: Seq<char>, c2: nat, t2: Seq<char>)
    requires
        subscriber_name(c1, t1) == subscriber_name(c2, t2),
    ensures
        c1 == c2,
{
    let d1 = dec_digits(c1);
    let d2 = dec_digits(c2);
    let n1 = subscriber_name(c1, t1);
    let n2 = subscriber_name(c2, t2);
    lemma_dec_digits_no_underscore(c1);
    lemma_dec_digits_no_underscore(c2);
    lemma_dec_digits_len(c1);
    lemma_dec_digits_len(c2);
    if d1.len() < d2.len() {
        assert(n1[d1.len() as int] == '_');
        assert(n2[d1.len() as int] == d2[d1.len() as int]);
        assert(false);
    } else if d2.len() < d1.len() {
        assert(n2[d2.len() as int] == '_');
        assert(n1[d2.len() as int] == d1[d2.len() as int]);
        assert(false);
    } else {
        assert(d1 =~= d2) by {
            assert(forall|i: int|
                0 <= i < d1.len() ==> (#[trigger] d1[i]) == n1[i] && n1[i] == n2[i] && n2[i]
                    == d2[i]);
        }
        lemma_dec_digits_injective(c1, c2);
    }
}

/// Relies on std's `format!` with `{}` for unsigned integers and strings: it
/// renders the counter as plain decimal digits, an underscore, then the topic
/// text, exactly [`subscriber_name`].
#[verifier::external_body]
fn format_subscriber_address(counter: usize, topic_address: &str) -> (r: String)
    ensures
        r@ == subscriber_name(counter as nat, topic_address@),
{
    format!("{}_{}", counter, topic_address)
}

/// Some subscription has this subscriber address.
pub open spec fn sub_has(subs: Seq<TopicSubscription>, a: Seq<char>) -> bool {
    exists|i: int| 0 <= i < subs.len() && (#[trigger] subs[i]).subscriber_address@ == a
}

/// The index of the subscription with this subscriber address.
pub open spec fn sub_index(subs: Seq<TopicSubscription>, a: Seq<char>) -> int
    recommends
        sub_has(subs, a),
{
    choose|i: int| 0 <= i < subs.len() && (#[trigger] subs[i]).subscriber_address@ == a
}

/// At most one subscription per subscriber address, and every subscription's
/// queue is its subscriber's own.
pub open spec fn subs_wf(subs: Seq<TopicSubscription>) -> bool {
    &&& forall|i: int, j: int|
        0 <= i < j < subs.len() ==> (#[trigger] subs[i]).subscriber_address@ != (
        #[trigger] subs[j]).subscriber_address@
    &&& forall|i: int| 0 <= i < subs.len() ==> (#[trigger] subs[i]).queue@ == subs[i].subscriber_address@
}

/// In a well-formed subscription list the matching index is unique.
pub proof fn lemma_sub_index(subs: Seq<TopicSubscription>, a: Seq<char>, i: int)
    requires
        subs_wf(subs),
        0 <= i < subs.len(),
        subs[i].subscriber_address@ == a,
    ensures
        sub_has(subs, a),
        sub_index(subs, a) == i,
{
    assert(sub_has(subs, a));
    let j = sub_index(subs, a);
    if i < j {
        assert(subs[i].subscriber_address@ != subs[j].subscriber_address@);
    } else if j < i {
        assert(subs[j].subscriber_address@ != subs[i].subscriber_address@);
    }
}

/// The subscriber address was formed from some counter value below `counter`.
pub open spec fn named_below(sub: TopicSubscription, counter: nat) -> bool {
    exists|c: nat, t: Seq<char>|
        c < counter && sub.subscriber_address@ == #[trigger] subscriber_name(c, t)
}

/// Every subscriber address was formed from some counter value below
/// `counter`; together with [`lemma_subscriber_name_counter`] this makes the
/// next formed address fresh.
pub open spec fn subs_named_below(subs: Seq<TopicSubscription>, counter: nat) -> bool {
    forall|i: int| 0 <= i < subs.len() ==> named_below(#[trigger] subs[i], counter)
}

/// A subscription for `topic` whose queue has this address exists.
pub open spec fn topic_feeds_queue(
    subs: Seq<TopicSubscription>,
    topic: Seq<char>,
    qaddr: Seq<char>,
) -> bool {
    exists|i: int|
        0 <= i < subs.len() && (#[trigger] subs[i]).topic@ == topic && subs[i].queue@ == qaddr
}

/// A topic worker: subscribe, publish into the subscribers' queues, poll a
/// subscriber's queue, unsubscribe.
pub trait TopicWorker {
    /// The live subscriptions, in subscription order.
    spec fn spec_subs(&self) -> Seq<TopicSubscription>;

    /// The owned queues, in arena order.
    spec fn spec_queues(&self) -> Seq<MemQueue>;

    /// The next subscription number.
    spec fn spec_counter(&self) -> nat;

    /// Subscriptions and queues are uniquely addressed.
    spec fn wf(&self) -> bool;

    /// Appends the message's body to the queue of every live subscription of
    /// this topic; everything else is untouched.
    fn publish(&mut self, topic: &str, message: QueueMessage)
        requires
            old(self).wf(),
        ensures
            final(self).wf(),
            final(self).spec_subs() == old(self).spec_subs(),
            final(self).spec_counter() == old(self).spec_counter(),
            final(self).spec_queues().len() == old(self).spec_queues().len(),
            forall|k: int|
                0 <= k < old(self).spec_queues().len() ==> {
                    let q0 = old(self).spec_queues()[k];
                    let q1 = #[trigger] final(self).spec_queues()[k];
                    &&& q1.spec_address() == q0.spec_address()
                    &&& q1.spec_messages() == (if topic_feeds_queue(
                        old(self).spec_subs(),
                        topic@,
                        q0.spec_address(),
                    ) {
                        q0.spec_messages().push(message.body@)
                    } else {
                        q0.spec_messages()
                    })
                },
    ;

    /// Registers a new subscription for this topic under a fresh subscriber
    /// address — the subscription counter's digits, an underscore, the topic
    /// — creating its queue, and returns that address.  `None` only when the
    /// counter is exhausted.
    fn subscribe(&mut self, topic_address: &str) -> (r: Option<String>)
        requires
            old(self).wf(),
        ensures
            final(self).wf(),
            ({
                let name = subscriber_name(old(self).spec_counter(), topic_address@);
                if old(self).spec_counter() < usize::MAX {
                    &&& r matches Some(s) && s@ == name
                    &&& !sub_has(old(self).spec_subs(), name)
                    &&& final(self).spec_counter() == old(self).spec_counter() + 1
                    &&& (if has_queue(old(self).spec_queues(), name) {
                        final(self).spec_queues() == old(self).spec_queues()
                    } else {
                        &&& final(self).spec_queues().len() == old(self).spec_queues().len() + 1
                        &&& final(self).spec_queues() == old(self).spec_queues().push(
                            final(self).spec_queues().last(),
                        )
                        &&& final(self).spec_queues().last().spec_address() == name
                        &&& final(self).spec_queues().last().spec_messages() == Seq::<
                            Seq<u8>,
                        >::empty()
                    })
                    &&& final(self).spec_subs() == old(self).spec_subs().push(
                        final(self).spec_subs().last(),
                    )
                    &&& is_sub_record(final(self).spec_subs().last(), topic_address@, name)
                } else {
                    &&& r is None
                    &&& final(self).spec_subs() == old(self).spec_subs()
                    &&& final(self).spec_queues() == old(self).spec_queues()
                    &&& final(self).spec_counter() == old(self).spec_counter()
                }
            }),
    ;

    /// Removes and returns, oldest first, everything queued for this
    /// subscriber; the subscription itself stays live.
    fn poll(&mut self, subscriber: &str) -> (r: Vec<QueueMessage>)
        requires
            old(self).wf(),
        ensures
            final(self).wf(),
            final(self).spec_subs() == old(self).spec_subs(),
            final(self).spec_counter() == old(self).spec_counter(),
            (if has_queue(old(self).spec_queues(), subscriber@) {
                let i = queue_index(old(self).spec_queues(), subscriber@);
                let q0 = old(self).spec_queues()[i];
                &&& r@.map_values(|m: QueueMessage| m.body@) == q0.spec_messages()
                &&& final(self).spec_queues() == old(self).spec_queues().update(
                    i,
                    final(self).spec_queues()[i],
                )
                &&& final(self).spec_queues()[i].spec_address() == q0.spec_address()
                &&& final(self).spec_queues()[i].spec_messages() == Seq::<Seq<u8>>::empty()
            } else {
                r@.len() == 0 && final(self).spec_queues() == old(self).spec_queues()
            }),
    ;

    /// Drops the subscription with this subscriber address; its queue, and
    /// whatever it still holds, stays until removed.
    fn unsubscribe(&mut self, subscriber: &str)
        requires
            old(self).wf(),
        ensures
            final(self).wf(),
            final(self).spec_queues() == old(self).spec_queues(),
            final(self).spec_counter() == old(self).spec_counter(),
            final(self).spec_subs() == (if sub_has(old(self).spec_subs(), subscriber@) {
                old(self).spec_subs().remove(sub_index(old(self).spec_subs(), subscriber@))
            } else {
                old(self).spec_subs()
            }),
    ;
}

/// The subscription record for this topic and subscriber address.
pub open spec fn is_sub_record(sub: TopicSubscription, topic: Seq<char>, name: Seq<char>) -> bool {
    sub.topic@ == topic && sub.queue@ == name && sub.subscriber_address@ == name
}

/// The in-memory topic worker: owns its queue worker and its subscriptions.
pub struct MemTopicWorker {
    queue_worker: MemQueueWorker,
    subscriptions: Vec<TopicSubscription>,
    subscription_id_counter: usize,
}

impl MemTopicWorker {
    /// A worker over this queue arena, with no subscriptions yet.
    pub fn new(queue_worker: MemQueueWorker) -> (w: MemTopicWorker)
        requires
            queue_worker.wf(),
        ensures
            w.wf(),
            w.spec_subs() == Seq::<TopicSubscription>::empty(),
            w.spec_queues() == queue_worker.spec_queues(),
            w.spec_counter() == 0,
    {
        MemTopicWorker { queue_worker, subscriptions: Vec::new(), subscription_id_counter: 0 }
    }

    /// The index of the subscription with this subscriber address.
    fn find_subscription(&self, a: &str) -> (r: Option<usize>)
        ensures
            (match r {
                Some(i) => {
                    &&& i < self.spec_subs().len()
                    &&& self.spec_subs()[i as int].subscriber_address@ == a@
                    &&& sub_has(self.spec_subs(), a@)
                    &&& subs_wf(self.spec_subs()) ==> i == sub_index(self.spec_subs(), a@)
                },
                None => !sub_has(self.spec_subs(), a@),
            }),
    {
        let key: String = a.to_owned();
        let n = self.subscriptions.len();
        let mut i: usize = 0;
        while i < n
            invariant
                n == self.spec_subs().len(),
                i <= n,
                key@ == a@,
                forall|j: int|
                    0 <= j < i ==> (#[trigger] self.spec_subs()[j]).subscriber_address@ != a@,
            decreases n - i,
        {
            if self.subscriptions[i].subscriber_address == key {
                proof {
                    assert(sub_has(self.spec_subs(), a@));
                    if subs_wf(self.spec_subs()) {
                        lemma_sub_index(self.spec_subs(), a@, i as int);
                    }
                }
                return Some(i);
            }
            i = i + 1;
        }
        None
    }
}

impl TopicWorker for MemTopicWorker {
    closed spec fn spec_subs(&self) -> Seq<TopicSubscription> {
        self.subscriptions@
    }

    closed spec fn spec_queues(&self) -> Seq<MemQueue> {
        self.queue_worker.spec_queues()
    }

    closed spec fn spec_counter(&self) -> nat {
        self.subscription_id_counter as nat
    }

    closed spec fn wf(&self) -> bool {
        &&& self.queue_worker.wf()
        &&& subs_wf(self.subscriptions@)
        &&& subs_named_below(self.subscriptions@, self.subscription_id_counter as nat)
    }

    fn publish(&mut self, topic: &str, message: QueueMessage) {
        let n = self.subscriptions.len();
        let mut i: usize = 0;
        let ghost qs0 = self.spec_queues();
        let ghost subs = self.spec_subs();
        let key: String = topic.to_owned();
        while i < n
            invariant
                n == self.spec_subs().len(),
                i <= n,
                key@ == topic@,
                self.wf(),
                self.spec_subs() == subs,
                self.spec_counter() == old(self).spec_counter(),
                subs == old(self).spec_subs(),
                qs0 == old(self).spec_queues(),
                self.spec_queues().len() == qs0.len(),
                forall|k: int|
                    0 <= k < qs0.len() ==> {
                        let q0 = qs0[k];
                        let q1 = #[trigger] self.spec_queues()[k];
                        &&& q1.spec_address() == q0.spec_address()
                        &&& q1.spec_messages() == (if topic_feeds_queue(
                            subs.subrange(0, i as int),
                            topic@,
                            q0.spec_address(),
                        ) {
                            q0.spec_messages().push(message.body@)
                        } else {
                            q0.spec_messages()
                        })
                    },
            decreases n - i,
        {
            let ghost qs_pre = self.spec_queues();
            if self.subscriptions[i].topic == key {
                let body_copy = copy_body(&message);
                let qaddr = self.subscriptions[i].queue.clone();
                self.queue_worker.enqueue_to(qaddr.as_str(), body_copy);
            }
            proof {
                lemma_publish_step(
                    qs0,
                    qs_pre,
                    self.spec_queues(),
                    subs,
                    i as int,
                    topic@,
                    message.body@,
                );
            }
            i = i + 1;
        }
        proof {
            assert(subs.subrange(0, n as int) =~= subs);
        }
    }

    fn subscribe(&mut self, topic_address: &str) -> (r: Option<String>) {
        if self.subscription_id_counter == usize::MAX {
            return None;
        }
        let ghost counter0 = self.spec_counter();
        let ghost subs0 = self.spec_subs();
        let ghost name = subscriber_name(counter0, topic_address@);
        proof {
            // the formed address is fresh: every stored one carries a
            // smaller counter value
            assert(!sub_has(subs0, name)) by {
                if sub_has(subs0, name) {
                    let i = choose|i: int|
                        0 <= i < subs0.len() && (#[trigger] subs0[i]).subscriber_address@ == name;
                    assert(named_below(subs0[i], counter0));
                    let (c, t) = choose|c: nat, t: Seq<char>|
                        c < counter0 && subs0[i].subscriber_address@ == #[trigger] subscriber_name(
                            c,
                            t,
                        );
                    lemma_subscriber_name_counter(c, t, counter0, topic_address@);
                }
            }
        }
        let addr = format_subscriber_address(self.subscription_id_counter, topic_address);
        let _key = self.queue_worker.get_or_create(addr.as_str());
        let sub = TopicSubscription {
            topic: topic_address.to_owned(),
            queue: addr.clone(),
            subscriber_address: addr.clone(),
        };
        self.subscriptions.push(sub);
        proof {
            assert(subs_wf(self.spec_subs())) by {
                assert(forall|x: int|
                    0 <= x < subs0.len() ==> (#[trigger] self.spec_subs()[x]) == subs0[x]);
                assert(forall|x: int|
                    0 <= x < subs0.len() ==> (#[trigger] subs0[x]).subscriber_address@ != name);
            }
            assert(subs_named_below(self.spec_subs(), counter0 + 1)) by {
                assert forall|i: int| 0 <= i < self.spec_subs().len() implies named_below(
                    #[trigger] self.spec_subs()[i],
                    counter0 + 1,
                ) by {
                    if i < subs0.len() {
                        assert(self.spec_subs()[i] == subs0[i]);
                        assert(named_below(subs0[i], counter0));
                        let (c, t) = choose|c: nat, t: Seq<char>|
                            c < counter0 && subs0[i].subscriber_address@
                                == #[trigger] subscriber_name(c, t);
                        assert(c < counter0 + 1);
                        assert(self.spec_subs()[i].subscriber_address@ == subscriber_name(c, t));
                    } else {
                        assert(self.spec_subs()[i].subscriber_address@ == subscriber_name(
                            counter0,
                            topic_address@,
                        ));
                        assert(counter0 < counter0 + 1);
                    }
                }
            }
        }
        self.subscription_id_counter = self.subscription_id_counter + 1;
        Some(addr)
    }

    fn poll(&mut self, subscriber: &str) -> (r: Vec<QueueMessage>) {
        self.queue_worker.drain_from(subscriber)
    }

    fn unsubscribe(&mut self, subscriber: &str) {
        match self.find_subscription(subscriber) {
            Some(i) => {
                self.subscriptions.remove(i);
                proof {
                    let subs0 = old(self).spec_subs();
                    let out = self.spec_subs();
                    assert(subs_wf(out)) by {
                        assert(forall|x: int| 0 <= x < i ==> (#[trigger] out[x]) == subs0[x]);
                        assert(forall|x: int|
                            i <= x < out.len() ==> (#[trigger] out[x]) == subs0[x + 1]);
                    }
                    assert(subs_named_below(out, self.spec_counter())) by {
                        assert forall|x: int| 0 <= x < out.len() implies named_below(
                            #[trigger] out[x],
                            self.spec_counter(),
                        ) by {
                            if x < i {
                                assert(out[x] == subs0[x]);
                                assert(named_below(subs0[x], self.spec_counter()));
                            } else {
                                assert(out[x] == subs0[x + 1]);
                                assert(named_below(subs0[x + 1], self.spec_counter()));
                            }
                        }
                    }
                }
            },
            None => {},
        }
    }
}

/// One step of publishing: queues after delivering to subscription `i`
/// relative to the queues after the first `i` subscriptions.
proof fn lemma_publish_step(
    qs0: Seq<MemQueue>,
    qs_pre: Seq<MemQueue>,
    qs_post: Seq<MemQueue>,
    subs: Seq<TopicSubscription>,
    i: int,
    topic: Seq<char>,
    body: Seq<u8>,
)
    requires
        subs_wf(subs),
        queues_wf(qs_pre),
        0 <= i < subs.len(),
        qs_pre.len() == qs0.len(),
        qs_post.len() == qs_pre.len(),
        forall|k: int|
            0 <= k < qs0.len() ==> {
                let q0 = qs0[k];
                let q1 = #[trigger] qs_pre[k];
                &&& q1.spec_address() == q0.spec_address()
                &&& q1.spec_messages() == (if topic_feeds_queue(
                    subs.subrange(0, i),
                    topic,
                    q0.spec_address(),
                ) {
                    q0.spec_messages().push(body)
                } else {
                    q0.spec_messages()
                })
            },
        // what the conditional enqueue did
        (if subs[i].topic@ == topic {
            if has_queue(qs_pre, subs[i].queue@) {
                forall|k: int|
                    0 <= k < qs_pre.len() ==> {
                        let qp = qs_pre[k];
                        let qn = #[trigger] qs_post[k];
                        &&& qn.spec_address() == qp.spec_address()
                        &&& qn.spec_messages() == (if k == queue_index(qs_pre, subs[i].queue@) {
                            qp.spec_messages().push(body)
                        } else {
                            qp.spec_messages()
                        })
                    }
            } else {
                qs_post == qs_pre
            }
        } else {
            qs_post == qs_pre
        }),
    ensures
        forall|k: int|
            0 <= k < qs0.len() ==> {
                let q0 = qs0[k];
                let q1 = #[trigger] qs_post[k];
                &&& q1.spec_address() == q0.spec_address()
                &&& q1.spec_messages() == (if topic_feeds_queue(
                    subs.subrange(0, i + 1),
                    topic,
                    q0.spec_address(),
                ) {
                    q0.spec_messages().push(body)
                } else {
                    q0.spec_messages()
                })
            },
{
    let pre = subs.subrange(0, i);
    let cur = subs.subrange(0, i + 1);
    assert(cur =~= pre.push(subs[i]));
    assert forall|qa: Seq<char>| #[trigger] topic_feeds_queue(cur, topic, qa) implies (
    topic_feeds_queue(pre, topic, qa) || (subs[i].topic@ == topic && subs[i].queue@ == qa)) by {
        let x = choose|x: int|
            0 <= x < cur.len() && (#[trigger] cur[x]).topic@ == topic && cur[x].queue@ == qa;
        if x < pre.len() {
            assert(pre[x].topic@ == topic && pre[x].queue@ == qa);
        } else {
            assert(cur[x] == subs[i]);
        }
    }
    assert forall|qa: Seq<char>|
        (topic_feeds_queue(pre, topic, qa) || (subs[i].topic@ == topic && subs[i].queue@
            == qa)) implies #[trigger] topic_feeds_queue(cur, topic, qa) by {
        if topic_feeds_queue(pre, topic, qa) {
            let x = choose|x: int|
                0 <= x < pre.len() && (#[trigger] pre[x]).topic@ == topic && pre[x].queue@ == qa;
            assert(cur[x].topic@ == topic && cur[x].queue@ == qa);
        } else {
            assert(cur[i].topic@ == topic && cur[i].queue@ == qa);
        }
    }
    if subs[i].topic@ == topic {
        if has_queue(qs_pre, subs[i].queue@) {
            let t = queue_index(qs_pre, subs[i].queue@);
            // the target queue was not already fed: an earlier subscription
            // feeding it would share the unique subscriber address
            assert(!topic_feeds_queue(pre, topic, qs_pre[t].spec_address())) by {
                if topic_feeds_queue(pre, topic, qs_pre[t].spec_address()) {
                    let x = choose|x: int|
                        0 <= x < pre.len() && (#[trigger] pre[x]).topic@ == topic && pre[x].queue@
                            == qs_pre[t].spec_address();
                    assert(subs[x].queue@ == subs[x].subscriber_address@);
                    assert(subs[i].queue@ == subs[i].subscriber_address@);
                    assert(subs[x].subscriber_address@ != subs[i].subscriber_address@);
                    assert(qs_pre[t].spec_address() == subs[i].queue@);
                }
            }
            assert(forall|k: int|
                0 <= k < qs0.len() && k != t ==> (#[trigger] qs_pre[k]).spec_address() != subs[i].queue@)
                by {
                assert(forall|k: int|
                    0 <= k < qs0.len() && (#[trigger] qs_pre[k]).spec_address() == subs[i].queue@
                        ==> k == queue_index(qs_pre, subs[i].queue@)) by {
                    assert forall|k: int|
                        0 <= k < qs0.len() && (#[trigger] qs_pre[k]).spec_address() == subs[i].queue@
                        implies k == queue_index(qs_pre, subs[i].queue@) by {
                        crate::queue::lemma_queue_index(qs_pre, subs[i].queue@, k);
                    }
                }
            }
        } else {
            // no queue carries the missing address
            assert(forall|k: int|
                0 <= k < qs0.len() ==> (#[trigger] qs_pre[k]).spec_address() != subs[i].queue@);
        }
    }
}

/// Copies a message.
fn copy_body(m: &QueueMessage) -> (r: QueueMessage)
    ensures
        r.body@ == m.body@,
{
    let mut body: Vec<u8> = Vec::new();
    let n = m.body.len();
    let mut i: usize = 0;
    while i < n
        invariant
            n == m.body@.len(),
            i <= n,
            body@ == m.body@.subrange(0, i as int),
        decreases n - i,
    {
        body.push(m.body[i]);
        assert(body@ =~= m.body@.subrange(0, i + 1 as int));
        i = i + 1;
    }
    assert(body@ =~= m.body@);
    QueueMessage { body }
}

} // verus!
