//! Addressed message queues and the worker that owns them.
//!
//! A queue is a first-in, first-out list of message bodies under a string
//! address.  The worker holds its queues in an arena it owns exclusively and
//! hands out arena keys, never shared handles; at most one queue exists per
//! address.

use vstd::prelude::*;

verus! {

/// One queued message: a byte body.
pub struct QueueMessage {
    pub body: Vec<u8>,
}

impl QueueMessage {
    /// Wraps a body.
    pub fn new(body: Vec<u8>) -> (m: QueueMessage)
        ensures
            m.body == body,
    {
        QueueMessage { body }
    }
}

/// A first-in, first-out message queue under one address.
pub trait Queue: Sized {
    /// The queue's address.
    spec fn spec_address(&self) -> Seq<char>;

    /// The queued bodies, oldest first.
    spec fn spec_messages(&self) -> Seq<Seq<u8>>;

    /// Returns the queue's address.
    fn address(&self) -> (r: String)
        ensures
            r@ == self.spec_address(),
    ;

    /// Appends a message at the back.
    fn enqueue(&mut self, message: QueueMessage)
        ensures
            final(self).spec_address() == old(self).spec_address(),
            final(self).spec_messages() == old(self).spec_messages().push(message.body@),
    ;

    /// Removes and returns the oldest message; `None` exactly when the queue
    /// is empty.
    fn dequeue(&mut self) -> (r: Option<QueueMessage>)
        ensures
            final(self).spec_address() == old(self).spec_address(),
            (if old(self).spec_messages().len() == 0 {
                r is None && *final(self) == *old(self)
            } else {
                &&& r matches Some(m)
                &&& m.body@ == old(self).spec_messages()[0]
                &&& final(self).spec_messages() == old(self).spec_messages().drop_first()
            }),
    ;
}

/// The in-memory queue.
pub struct MemQueue {
    address: String,
    messages: Vec<QueueMessage>,
}

impl MemQueue {
    /// An empty queue under this address.
    pub fn new(address: String) -> (q: MemQueue)
        ensures
            q.spec_address() == address@,
            q.spec_messages() == Seq::<Seq<u8>>::empty(),
    {
        let q = MemQueue { address, messages: Vec::new() };
        proof {
            assert(q.spec_messages() =~= Seq::<Seq<u8>>::empty());
        }
        q
    }

    /// Removes and returns everything queued, oldest first.
    pub fn take_all(&mut self) -> (r: Vec<QueueMessage>)
        ensures
            final(self).spec_address() == old(self).spec_address(),
            final(self).spec_messages() == Seq::<Seq<u8>>::empty(),
            r@.map_values(|m: QueueMessage| m.body@) == old(self).spec_messages(),
    {
        let mut out: Vec<QueueMessage> = Vec::new();
        core::mem::swap(&mut out, &mut self.messages);
        proof {
            assert(self.spec_messages() =~= Seq::<Seq<u8>>::empty());
        }
        out
    }
}

impl Queue for MemQueue {
    closed spec fn spec_address(&self) -> Seq<char> {
        self.address@
    }

    closed spec fn spec_messages(&self) -> Seq<Seq<u8>> {
        self.messages@.map_values(|m: QueueMessage| m.body@)
    }

    fn address(&self) -> (r: String) {
        self.address.clone()
    }

    fn enqueue(&mut self, message: QueueMessage) {
        self.messages.push(message);
        proof {
            assert(self.spec_messages() =~= old(self).spec_messages().push(message.body@));
        }
    }

    fn dequeue(&mut self) -> (r: Option<QueueMessage>) {
        if self.messages.len() == 0 {
            None
        } else {
            let m = self.messages.remove(0);
            proof {
                assert(self.spec_messages() =~= old(self).spec_messages().drop_first());
            }
            Some(m)
        }
    }
}

/// Some queue in the arena has this address.
pub open spec fn has_queue(qs: Seq<MemQueue>, a: Seq<char>) -> bool {
    exists|i: int| 0 <= i < qs.len() && (#[trigger] qs[i]).spec_address() == a
}

/// The index of the queue with this address.
pub open spec fn queue_index(qs: Seq<MemQueue>, a: Seq<char>) -> int
    recommends
        has_queue(qs, a),
{
    choose|i: int| 0 <= i < qs.len() && (#[trigger] qs[i]).spec_address() == a
}

/// At most one queue per distinct address.
pub open spec fn queues_wf(qs: Seq<MemQueue>) -> bool {
    forall|i: int, j: int|
        0 <= i < j < qs.len() ==> (#[trigger] qs[i]).spec_address() != (
        #[trigger] qs[j]).spec_address()
}

/// In a well-formed arena the matching index is unique.
pub proof fn lemma_queue_index(qs: Seq<MemQueue>, a: Seq<char>, i: int)
    requires
        queues_wf(qs),
        0 <= i < qs.len(),
        qs[i].spec_address() == a,
    ensures
        has_queue(qs, a),
        queue_index(qs, a) == i,
{
    assert(has_queue(qs, a));
    let j = queue_index(qs, a);
    if i < j {
        assert(qs[i].spec_address() != qs[j].spec_address());
    } else if j < i {
        assert(qs[j].spec_address() != qs[i].spec_address());
    }
}

/// Owns queues, keyed by address.
pub trait QueueWorker {
    /// The owned queues, in arena order.
    spec fn spec_queues(&self) -> Seq<MemQueue>;

    /// Returns the arena key of the queue with this address, creating an
    /// empty queue first when none exists; `None` only when a queue can
    /// neither be found nor created.
    fn get_queue(&mut self, queue_address: &str) -> (r: Option<usize>)
        ensures
            queues_wf(old(self).spec_queues()) ==> queues_wf(final(self).spec_queues()),
            (match r {
                Some(i) => {
                    &&& i < final(self).spec_queues().len()
                    &&& final(self).spec_queues()[i as int].spec_address() == queue_address@
                    &&& (if has_queue(old(self).spec_queues(), queue_address@) {
                        final(self).spec_queues() == old(self).spec_queues()
                    } else {
                        &&& i == old(self).spec_queues().len()
                        &&& final(self).spec_queues()[i as int].spec_messages() == Seq::<
                            Seq<u8>,
                        >::empty()
                        &&& final(self).spec_queues() == old(self).spec_queues().push(
                            final(self).spec_queues()[i as int],
                        )
                    })
                },
                None => final(self).spec_queues() == old(self).spec_queues(),
            }),
    ;

    /// Removes the queue with this address, with whatever it still holds;
    /// without one, nothing changes.
    fn remove_queue(&mut self, queue_name: &str)
        ensures
            queues_wf(old(self).spec_queues()) ==> queues_wf(final(self).spec_queues()),
            queues_wf(old(self).spec_queues()) ==> final(self).spec_queues() == (if has_queue(
                old(self).spec_queues(),
                queue_name@,
            ) {
                old(self).spec_queues().remove(queue_index(old(self).spec_queues(), queue_name@))
            } else {
                old(self).spec_queues()
            }),
    ;
}

/// The in-memory queue worker: an arena of queues with unique addresses.
pub struct MemQueueWorker {
    queues: Vec<MemQueue>,
}

impl MemQueueWorker {
    /// The arena never holds two queues under one address.
    pub open spec fn wf(&self) -> bool {
        queues_wf(self.spec_queues())
    }

    /// An empty worker.
    pub fn new() -> (w: MemQueueWorker)
        ensures
            w.spec_queues() == Seq::<MemQueue>::empty(),
            w.wf(),
    {
        MemQueueWorker { queues: Vec::new() }
    }

    /// The arena index of the queue with this address.
    fn find_queue(&self, a: &str) -> (r: Option<usize>)
        ensures
            (match r {
                Some(i) => {
                    &&& i < self.spec_queues().len()
                    &&& self.spec_queues()[i as int].spec_address() == a@
                    &&& has_queue(self.spec_queues(), a@)
                    &&& self.wf() ==> i == queue_index(self.spec_queues(), a@)
                },
                None => !has_queue(self.spec_queues(), a@),
            }),
    {
        let key: String = a.to_owned();
        let n = self.queues.len();
        let mut i: usize = 0;
        while i < n
            invariant
                n == self.spec_queues().len(),
                i <= n,
                key@ == a@,
                forall|j: int| 0 <= j < i ==> (#[trigger] self.spec_queues()[j]).spec_address() != a@,
            decreases n - i,
        {
            if self.queues[i].address() == key {
                proof {
                    assert(has_queue(self.spec_queues(), a@));
                    if self.wf() {
                        lemma_queue_index(self.spec_queues(), a@, i as int);
                    }
                }
                return Some(i);
            }
            i = i + 1;
        }
        None
    }

    /// The arena key of the queue with this address; an empty queue is
    /// created first when none exists.
    pub fn get_or_create(&mut self, queue_address: &str) -> (i: usize)
        requires
            old(self).wf(),
        ensures
            final(self).wf(),
            i < final(self).spec_queues().len(),
            final(self).spec_queues()[i as int].spec_address() == queue_address@,
            (if has_queue(old(self).spec_queues(), queue_address@) {
                final(self).spec_queues() == old(self).spec_queues() && i == queue_index(
                    old(self).spec_queues(),
                    queue_address@,
                )
            } else {
                &&& i == old(self).spec_queues().len()
                &&& final(self).spec_queues()[i as int].spec_messages() == Seq::<Seq<u8>>::empty()
                &&& final(self).spec_queues() == old(self).spec_queues().push(
                    final(self).spec_queues()[i as int],
                )
            }),
    {
        match self.find_queue(queue_address) {
            Some(i) => i,
            None => {
                let name_string: String = queue_address.to_owned();
                let new_queue = MemQueue::new(name_string);
                let i = self.queues.len();
                self.queues.push(new_queue);
                proof {
                    let qs0 = old(self).spec_queues();
                    assert(queues_wf(self.spec_queues())) by {
                        assert(forall|x: int|
                            0 <= x < qs0.len() ==> (#[trigger] self.spec_queues()[x]) == qs0[x]);
                        assert(forall|x: int|
                            0 <= x < qs0.len() ==> (#[trigger] qs0[x]).spec_address()
                                != queue_address@);
                    }
                }
                i
            },
        }
    }

    /// Appends `body` to the queue with this address; `false`, with nothing
    /// changed, when no such queue exists.
    pub fn enqueue_to(&mut self, address: &str, message: QueueMessage) -> (r: bool)
        requires
            old(self).wf(),
        ensures
            final(self).wf(),
            r == has_queue(old(self).spec_queues(), address@),
            (if has_queue(old(self).spec_queues(), address@) {
                final(self).spec_queues() == old(self).spec_queues().update(
                    queue_index(old(self).spec_queues(), address@),
                    final(self).spec_queues()[queue_index(old(self).spec_queues(), address@)],
                ) && {
                    let i = queue_index(old(self).spec_queues(), address@);
                    let q0 = old(self).spec_queues()[i];
                    let q1 = final(self).spec_queues()[i];
                    q1.spec_address() == q0.spec_address() && q1.spec_messages()
                        == q0.spec_messages().push(message.body@)
                }
            } else {
                final(self).spec_queues() == old(self).spec_queues()
            }),
    {
        match self.find_queue(address) {
            None => false,
            Some(i) => {
                let ghost qs0 = self.spec_queues();
                let q = &mut self.queues[i];
                q.enqueue(message);
                proof {
                    assert(self.spec_queues() =~= qs0.update(
                        i as int,
                        self.spec_queues()[i as int],
                    ));
                    assert(queues_wf(self.spec_queues())) by {
                        assert(forall|x: int|
                            0 <= x < qs0.len() ==> (#[trigger] self.spec_queues()[x]).spec_address()
                                == qs0[x].spec_address());
                    }
                }
                true
            },
        }
    }

    /// Removes and returns the oldest message of the queue with this
    /// address; `None`, with nothing changed, when there is no such queue or
    /// it is empty.
    pub fn dequeue_from(&mut self, address: &str) -> (r: Option<QueueMessage>)
        requires
            old(self).wf(),
        ensures
            final(self).wf(),
            (if has_queue(old(self).spec_queues(), address@) {
                let i = queue_index(old(self).spec_queues(), address@);
                let q0 = old(self).spec_queues()[i];
                if q0.spec_messages().len() == 0 {
                    r is None && final(self).spec_queues() == old(self).spec_queues()
                } else {
                    &&& r matches Some(m) && m.body@ == q0.spec_messages()[0]
                    &&& final(self).spec_queues() == old(self).spec_queues().update(
                        i,
                        final(self).spec_queues()[i],
                    )
                    &&& final(self).spec_queues()[i].spec_address() == q0.spec_address()
                    &&& final(self).spec_queues()[i].spec_messages() == q0.spec_messages().drop_first()
                }
            } else {
                r is None && final(self).spec_queues() == old(self).spec_queues()
            }),
    {
        match self.find_queue(address) {
            None => None,
            Some(i) => {
                let ghost qs0 = self.spec_queues();
                let q = &mut self.queues[i];
                let r = q.dequeue();
                proof {
                    assert(self.spec_queues() =~= qs0.update(
                        i as int,
                        self.spec_queues()[i as int],
                    ));
                    assert(queues_wf(self.spec_queues())) by {
                        assert(forall|x: int|
                            0 <= x < qs0.len() ==> (#[trigger] self.spec_queues()[x]).spec_address()
                                == qs0[x].spec_address());
                    }
                    if qs0[i as int].spec_messages().len() == 0 {
                        assert(self.spec_queues() =~= qs0);
                    }
                }
                r
            },
        }
    }

    /// Removes and returns everything in the queue with this address, oldest
    /// first; an empty list when there is no such queue.
    pub fn drain_from(&mut self, address: &str) -> (r: Vec<QueueMessage>)
        requires
            old(self).wf(),
        ensures
            final(self).wf(),
            (if has_queue(old(self).spec_queues(), address@) {
                let i = queue_index(old(self).spec_queues(), address@);
                let q0 = old(self).spec_queues()[i];
                &&& r@.map_values(|m: QueueMessage| m.body@) == q0.spec_messages()
                &&& final(self).spec_queues() == old(self).spec_queues().update(
                    i,
                    final(self).spec_queues()[i],
                )
                &&& final(self).spec_queues()[i].spec_address() == q0.spec_address()
                &&& final(self).spec_queues()[i].spec_messages() == Seq::<Seq<u8>>::empty()
            } else {
                r@.len() == 0 && final(self).spec_queues() == old(self).spec_queues()
            }),
    {
        match self.find_queue(address) {
            None => Vec::new(),
            Some(i) => {
                let ghost qs0 = self.spec_queues();
                let q = &mut self.queues[i];
                let out = q.take_all();
                proof {
                    assert(self.spec_queues() =~= qs0.update(
                        i as int,
                        self.spec_queues()[i as int],
                    ));
                    assert(queues_wf(self.spec_queues())) by {
                        assert(forall|x: int|
                            0 <= x < qs0.len() ==> (#[trigger] self.spec_queues()[x]).spec_address()
                                == qs0[x].spec_address());
                    }
                }
                out
            },
        }
    }
}

impl QueueWorker for MemQueueWorker {
    closed spec fn spec_queues(&self) -> Seq<MemQueue> {
        self.queues@
    }

    fn get_queue(&mut self, queue_address: &str) -> (r: Option<usize>) {
        match self.find_queue(queue_address) {
            Some(i) => Some(i),
            None => {
                let name_string: String = queue_address.to_owned();
                let new_queue = MemQueue::new(name_string);
                let i = self.queues.len();
                self.queues.push(new_queue);
                proof {
                    let qs0 = old(self).spec_queues();
                    if queues_wf(qs0) {
                        assert(queues_wf(self.spec_queues())) by {
                            assert(forall|x: int|
                                0 <= x < qs0.len() ==> (#[trigger] self.spec_queues()[x])
                                    == qs0[x]);
                            assert(forall|x: int|
                                0 <= x < qs0.len() ==> (#[trigger] qs0[x]).spec_address()
                                    != queue_address@);
                        }
                    }
                }
                Some(i)
            },
        }
    }

    fn remove_queue(&mut self, queue_name: &str) {
        match self.find_queue(queue_name) {
            Some(i) => {
                self.queues.remove(i);
                proof {
                    let qs0 = old(self).spec_queues();
                    let out = self.spec_queues();
                    if queues_wf(qs0) {
                        assert(queues_wf(out)) by {
                            assert(forall|x: int| 0 <= x < i ==> (#[trigger] out[x]) == qs0[x]);
                            assert(forall|x: int|
                                i <= x < out.len() ==> (#[trigger] out[x]) == qs0[x + 1]);
                        }
                    }
                }
            },
            None => {},
        }
    }
}

} // verus!
