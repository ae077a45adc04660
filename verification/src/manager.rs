//! The transport manager: a pool of connections keyed by peer address, a
//! FIFO command queue, and the decisions of one poll-loop tick.
//!
//! The manager owns its pool exclusively; sockets, channels and the loop that
//! drives ticks live outside the verified core and act on the values returned
//! here.  Commands are processed strictly in arrival order; a failing
//! connection is removed from the pool and reported, and never stops the loop
//! for the others.

use vstd::prelude::*;
use crate::connection::{
    conn_of, outcome_view, receive_spec, sent_view, Connection, ReadEvent, ReceiveOutcome,
    ReceiveOutcomeView,
};
use crate::codec::enc_message;
use crate::error::TransportError;
use crate::message::Message;
use crate::route::{Address, AddressType};

verus! {

/// The command union shared with the owning router.  `SendMessage` and `Stop`
/// are inbound to a manager; `Register` and `ReceiveMessage` flow outward.
#[derive(Debug)]
pub enum Command {
    /// Announces a manager as the delivery path for one address family;
    /// emitted exactly once, at construction.
    Register(AddressType),
    /// Ask the manager to send this message toward its next hop.
    SendMessage(Message),
    /// End the poll loop.
    Stop,
    /// A message that reached its final transport hop, for the router.
    ReceiveMessage(Message),
}

/// The abstract state of a manager.
pub struct ManagerView {
    pub connections: Seq<Connection>,
    pub commands: Seq<Command>,
    pub stopped: bool,
}

/// The abstract value of what one tick decided.
pub enum ActionView {
    /// No command was queued.
    Idle,
    /// Write this frame to the pooled connection with this peer address.
    Write { peer: Address, frame: Seq<u8> },
    /// A message whose next hop is missing or not in the pool; it is dropped
    /// and reported, and the loop goes on.
    NoRoute,
    /// A frame could not be produced; the connection was removed.
    SendFailed { peer: Address, err: TransportError },
    /// The stop command was honoured.
    Stopped,
    /// A command kind the manager does not handle.
    Ignored,
}

/// What one tick decided, with the values the loop must act on.
pub enum TickAction {
    Idle,
    Write(Address, Vec<u8>),
    NoRoute,
    SendFailed(Address, TransportError),
    Stopped,
    Ignored,
}

/// The abstract value of a [`TickAction`].
pub open spec fn tick_action_view(a: TickAction) -> ActionView {
    match a {
        TickAction::Idle => ActionView::Idle,
        TickAction::Write(p, v) => ActionView::Write { peer: p, frame: v@ },
        TickAction::NoRoute => ActionView::NoRoute,
        TickAction::SendFailed(p, e) => ActionView::SendFailed { peer: p, err: e },
        TickAction::Stopped => ActionView::Stopped,
        TickAction::Ignored => ActionView::Ignored,
    }
}

/// At most one pooled connection per distinct peer address.
pub open spec fn pool_wf(conns: Seq<Connection>) -> bool {
    forall|i: int, j: int|
        0 <= i < j < conns.len() ==> (#[trigger] conns[i]).peer_address.address != (
        #[trigger] conns[j]).peer_address.address
}

/// Some pooled connection has this peer address.
pub open spec fn has_conn(conns: Seq<Connection>, a: Address) -> bool {
    exists|i: int| 0 <= i < conns.len() && (#[trigger] conns[i]).peer_address.address == a
}

/// The index of the pooled connection with this peer address.
pub open spec fn conn_index(conns: Seq<Connection>, a: Address) -> int
    recommends
        has_conn(conns, a),
{
    choose|i: int| 0 <= i < conns.len() && (#[trigger] conns[i]).peer_address.address == a
}

/// The pooled connection with this peer address.
pub open spec fn conn_at(conns: Seq<Connection>, a: Address) -> Connection
    recommends
        has_conn(conns, a),
{
    conns[conn_index(conns, a)]
}

/// The pool after adding `c`: an existing connection to the same peer is
/// replaced, otherwise `c` is appended.
pub open spec fn pool_insert(conns: Seq<Connection>, c: Connection) -> Seq<Connection> {
    if has_conn(conns, c.peer_address.address) {
        conns.update(conn_index(conns, c.peer_address.address), c)
    } else {
        conns.push(c)
    }
}

/// The pool with the connection to `a` taken out.
pub open spec fn pool_remove(conns: Seq<Connection>, a: Address) -> Seq<Connection>
    recommends
        has_conn(conns, a),
{
    conns.remove(conn_index(conns, a))
}

/// In a well-formed pool the matching index is unique.
pub proof fn lemma_conn_index(conns: Seq<Connection>, a: Address, i: int)
    requires
        pool_wf(conns),
        0 <= i < conns.len(),
        conns[i].peer_address.address == a,
    ensures
        has_conn(conns, a),
        conn_index(conns, a) == i,
{
    assert(has_conn(conns, a));
    let j = conn_index(conns, a);
    if i < j {
        assert(conns[i].peer_address.address != conns[j].peer_address.address);
    } else if j < i {
        assert(conns[j].peer_address.address != conns[i].peer_address.address);
    }
}

/// What dispatching one `SendMessage` does to the pool, and the action it
/// yields: the next hop is the onward route's head; with no usable hop or no
/// pooled connection the message is dropped and reported; a frame that cannot
/// be produced removes the connection.
pub open spec fn send_step(conns: Seq<Connection>, m: Message) -> (Seq<Connection>, ActionView) {
    if m@.onward.len() == 0 {
        (conns, ActionView::NoRoute)
    } else {
        let hop = m@.onward[0].address;
        if !has_conn(conns, hop) {
            (conns, ActionView::NoRoute)
        } else {
            let c = conn_at(conns, hop);
            if sent_view(c, m@).bounded() {
                (conns, ActionView::Write { peer: hop, frame: enc_message(sent_view(c, m@)) })
            } else {
                (
                    pool_remove(conns, hop),
                    ActionView::SendFailed { peer: hop, err: TransportError::WriteFailed },
                )
            }
        }
    }
}

/// One tick of command processing: take the oldest queued command — strictly
/// first in, first out — dispatch a `SendMessage`, honour `Stop`, ignore the
/// kinds the manager does not handle.
pub open spec fn spec_tick(s: ManagerView) -> (ManagerView, ActionView) {
    if s.commands.len() == 0 {
        (s, ActionView::Idle)
    } else {
        let rest = s.commands.drop_first();
        match s.commands[0] {
            Command::SendMessage(m) => {
                let (conns, act) = send_step(s.connections, m);
                (ManagerView { connections: conns, commands: rest, stopped: s.stopped }, act)
            },
            Command::Stop => (
                ManagerView { connections: s.connections, commands: rest, stopped: true },
                ActionView::Stopped,
            ),
            _ => (
                ManagerView { connections: s.connections, commands: rest, stopped: s.stopped },
                ActionView::Ignored,
            ),
        }
    }
}

/// What handling one read event does: no pooled connection means nothing
/// happens; otherwise the connection's verdict either leaves the pool alone
/// (progress or none) or removes exactly the failing connection.
pub enum ReadAction {
    /// No pooled connection has this peer address.
    NoConnection,
    /// No data was available; nothing changed.
    NoProgress,
    /// Write this frame back to the connection with this peer address.
    Write(Address, Vec<u8>),
    /// The message reached its final transport hop; hand it to the router.
    Deliver(Message),
    /// The connection failed and was removed from the pool; the error is
    /// reported and the loop goes on.
    Dropped(Address, TransportError),
}

/// How an outbound connection attempt ended: the observed peer and local
/// addresses of the new socket, or failure.
pub enum ConnectOutcome {
    Connected(Address, Address),
    Failed,
}

/// Whether a listener was requested at construction, and how binding it went.
pub enum BindOutcome {
    NotRequested,
    Bound,
    Failed,
}

/// The transport manager: the pool of connections for one address family,
/// the inbound command queue, and the stop flag.
#[derive(Debug)]
pub struct TcpManager {
    connections: Vec<Connection>,
    commands: Vec<Command>,
    stopped: bool,
}

impl View for TcpManager {
    type V = ManagerView;

    closed spec fn view(&self) -> ManagerView {
        ManagerView { connections: self.connections@, commands: self.commands@, stopped: self.stopped }
    }
}

impl TcpManager {
    /// The pool never holds two connections to one peer.
    pub open spec fn wf(&self) -> bool {
        pool_wf(self@.connections)
    }

    /// Builds a manager.  The returned command is the one `Register` this
    /// manager announces itself with; it is produced before the bind outcome
    /// is examined, exactly once.  A manager configured to listen whose bind
    /// failed is not constructed: that failure is fatal.
    pub fn new(bind: BindOutcome) -> (r: (Command, Result<TcpManager, TransportError>))
        ensures
            r.0 is Register,
            r.0 matches Command::Register(t) && t is Tcp,
            r.1 is Err <==> bind is Failed,
            r.1 matches Err(e) ==> e is BindFailed,
            r.1 matches Ok(mgr) ==> {
                &&& mgr@.connections == Seq::<Connection>::empty()
                &&& mgr@.commands == Seq::<Command>::empty()
                &&& !mgr@.stopped
                &&& mgr.wf()
            },
    {
        let register = Command::Register(AddressType::Tcp);
        match bind {
            BindOutcome::Failed => (register, Err(TransportError::BindFailed)),
            _ => (
                register,
                Ok(TcpManager { connections: Vec::new(), commands: Vec::new(), stopped: false }),
            ),
        }
    }

    /// How many connections are pooled.
    pub fn connection_count(&self) -> (n: usize)
        ensures
            n == self@.connections.len(),
    {
        self.connections.len()
    }

    /// Whether the pool holds a connection to this peer.
    pub fn has_connection(&self, a: Address) -> (r: bool)
        ensures
            r == has_conn(self@.connections, a),
    {
        match self.find_connection(a) {
            Some(_) => true,
            None => false,
        }
    }

    /// Whether `Stop` has been processed.
    pub fn is_stopped(&self) -> (r: bool)
        ensures
            r == self@.stopped,
    {
        self.stopped
    }

    /// The index of the pooled connection with this peer address.
    fn find_connection(&self, a: Address) -> (r: Option<usize>)
        ensures
            (match r {
                Some(i) => {
                    &&& i < self@.connections.len()
                    &&& self@.connections[i as int].peer_address.address == a
                    &&& has_conn(self@.connections, a)
                    &&& self.wf() ==> i == conn_index(self@.connections, a)
                        && self@.connections[i as int] == conn_at(self@.connections, a)
                },
                None => !has_conn(self@.connections, a),
            }),
    {
        let n = self.connections.len();
        let mut i: usize = 0;
        while i < n
            invariant
                i <= n,
                n == self@.connections.len(),
                forall|j: int|
                    0 <= j < i ==> (#[trigger] self@.connections[j]).peer_address.address != a,
            decreases n - i,
        {
            if self.connections[i].peer_address.address == a {
                proof {
                    assert(has_conn(self@.connections, a));
                    if pool_wf(self@.connections) {
                        lemma_conn_index(self@.connections, a, i as int);
                    }
                }
                return Some(i);
            }
            i = i + 1;
        }
        None
    }

    /// Records the outcome of one outbound connection attempt.  On failure it
    /// returns `ConnectFailed` and the whole manager — the pool included — is
    /// exactly as it was; on success the new socket's connection is pooled
    /// and the observed peer address is returned as its handle.
    pub fn connect(&mut self, outcome: ConnectOutcome) -> (r: Result<Address, TransportError>)
        requires
            old(self).wf(),
        ensures
            final(self).wf(),
            (match outcome {
                ConnectOutcome::Failed => {
                    &&& r matches Err(e) && e is ConnectFailed
                    &&& final(self)@ == old(self)@
                },
                ConnectOutcome::Connected(peer, local) => {
                    &&& r matches Ok(a) && a == peer
                    &&& final(self)@.connections == pool_insert(
                        old(self)@.connections,
                        conn_of(local, peer),
                    )
                    &&& final(self)@.commands == old(self)@.commands
                    &&& final(self)@.stopped == old(self)@.stopped
                },
            }),
    {
        match outcome {
            ConnectOutcome::Failed => Err(TransportError::ConnectFailed),
            ConnectOutcome::Connected(peer, local) => {
                self.add_connection(peer, local);
                Ok(peer)
            },
        }
    }

    /// Pools the connection for a new socket — accepted or connected — keyed
    /// by its observed peer address.  A connection already pooled for that
    /// peer is replaced.
    pub fn add_connection(&mut self, peer: Address, local: Address) -> (r: bool)
        requires
            old(self).wf(),
        ensures
            final(self).wf(),
            final(self)@.connections == pool_insert(old(self)@.connections, conn_of(local, peer)),
            final(self)@.commands == old(self)@.commands,
            final(self)@.stopped == old(self)@.stopped,
            has_conn(final(self)@.connections, peer),
            r == true,
    {
        let c = Connection::new(local, peer);
        let found = self.find_connection(peer);
        match found {
            Some(i) => {
                self.connections[i] = c;
                proof {
                    let oldc = old(self)@.connections;
                    let newc = self@.connections;
                    assert(newc =~= oldc.update(conn_index(oldc, peer), c));
                    assert(pool_wf(newc)) by {
                        assert(forall|x: int|
                            0 <= x < newc.len() && x != conn_index(oldc, peer)
                                ==> (#[trigger] newc[x]) == oldc[x]);
                    }
                    assert(has_conn(newc, peer)) by {
                        assert(newc[conn_index(oldc, peer)].peer_address.address == peer);
                    }
                }
            },
            None => {
                self.connections.push(c);
                proof {
                    let oldc = old(self)@.connections;
                    let newc = self@.connections;
                    assert(pool_wf(newc)) by {
                        assert(forall|x: int| 0 <= x < oldc.len() ==> (#[trigger] newc[x]) == oldc[x]);
                        assert(newc[oldc.len() as int] == c);
                        assert(forall|x: int|
                            0 <= x < oldc.len()
                                ==> (#[trigger] oldc[x]).peer_address.address != peer);
                    }
                    assert(has_conn(newc, peer)) by {
                        assert(newc[oldc.len() as int].peer_address.address == peer);
                    }
                }
            },
        }
        true
    }

    /// Appends one command to the inbound queue; commands are processed in
    /// arrival order.
    pub fn enqueue_command(&mut self, cmd: Command)
        requires
            old(self).wf(),
        ensures
            final(self).wf(),
            final(self)@.commands == old(self)@.commands.push(cmd),
            final(self)@.connections == old(self)@.connections,
            final(self)@.stopped == old(self)@.stopped,
    {
        self.commands.push(cmd);
    }

    /// Processes the oldest queued command, if any: exactly [`spec_tick`] of
    /// the manager's state.  `SendMessage` is dispatched to the pooled
    /// connection for the onward route's head; `Stop` sets the stop flag; a
    /// send whose frame cannot be produced removes that connection and is
    /// reported, and the loop goes on.
    pub fn process_next_command(&mut self) -> (a: TickAction)
        requires
            old(self).wf(),
        ensures
            final(self).wf(),
            final(self)@ == spec_tick(old(self)@).0,
            tick_action_view(a) == spec_tick(old(self)@).1,
    {
        if self.commands.len() == 0 {
            return TickAction::Idle;
        }
        let cmd = self.commands.remove(0);
        proof {
            assert(self@.commands =~= old(self)@.commands.drop_first());
        }
        match cmd {
            Command::SendMessage(m) => {
                if m.onward_route.addresses.len() == 0 {
                    return TickAction::NoRoute;
                }
                let hop = m.onward_route.addresses[0].address;
                let found = self.find_connection(hop);
                match found {
                    None => TickAction::NoRoute,
                    Some(i) => {
                        let c = self.connections[i];
                        let ghost conns0 = self@.connections;
                        match c.send_message(m) {
                            Ok(frame) => TickAction::Write(hop, frame),
                            Err(e) => {
                                self.connections.remove(i);
                                proof {
                                    assert(self@.connections =~= pool_remove(conns0, hop));
                                    lemma_pool_remove_wf(conns0, hop);
                                }
                                TickAction::SendFailed(hop, e)
                            },
                        }
                    },
                }
            },
            Command::Stop => {
                self.stopped = true;
                TickAction::Stopped
            },
            Command::Register(_) => TickAction::Ignored,
            Command::ReceiveMessage(_) => TickAction::Ignored,
        }
    }

    /// Handles the outcome of one non-blocking read on the connection with
    /// this peer address.  No data leaves the whole manager exactly as it
    /// was; a failing connection is removed from the pool — isolating the
    /// failure — and reported, while the queue and the stop flag never
    /// change.
    pub fn handle_read(&mut self, peer: Address, event: ReadEvent) -> (r: ReadAction)
        requires
            old(self).wf(),
        ensures
            final(self).wf(),
            final(self)@.commands == old(self)@.commands,
            final(self)@.stopped == old(self)@.stopped,
            (if !has_conn(old(self)@.connections, peer) {
                r is NoConnection && final(self)@ == old(self)@
            } else {
                let c = conn_at(old(self)@.connections, peer);
                match receive_spec(c, event) {
                    Ok(ov) => final(self)@ == old(self)@ && (match ov {
                        ReceiveOutcomeView::NoProgress => r is NoProgress,
                        ReceiveOutcomeView::Relay(f) => r matches ReadAction::Write(p, v) && p
                            == peer && v@ == f,
                        ReceiveOutcomeView::Deliver(mv) => r matches ReadAction::Deliver(m) && m@
                            == mv,
                    }),
                    Err(e) => {
                        &&& r matches ReadAction::Dropped(p, e2) && p == peer && e2 == e
                        &&& final(self)@.connections == pool_remove(old(self)@.connections, peer)
                    },
                }
            }),
    {
        let found = self.find_connection(peer);
        match found {
            None => ReadAction::NoConnection,
            Some(i) => {
                let c = self.connections[i];
                match c.receive_message(event) {
                    Ok(ReceiveOutcome::NoProgress) => ReadAction::NoProgress,
                    Ok(ReceiveOutcome::Relay(v)) => ReadAction::Write(peer, v),
                    Ok(ReceiveOutcome::Deliver(m)) => ReadAction::Deliver(m),
                    Err(e) => {
                        let ghost conns0 = self@.connections;
                        self.connections.remove(i);
                        proof {
                            assert(self@.connections =~= pool_remove(conns0, peer));
                            lemma_pool_remove_wf(conns0, peer);
                        }
                        ReadAction::Dropped(peer, e)
                    },
                }
            },
        }
    }
}

/// Removing one connection keeps the pool well formed.
pub proof fn lemma_pool_remove_wf(conns: Seq<Connection>, a: Address)
    requires
        pool_wf(conns),
        has_conn(conns, a),
    ensures
        pool_wf(pool_remove(conns, a)),
{
    let k = conn_index(conns, a);
    let out = conns.remove(k);
    assert(pool_wf(out)) by {
        assert(forall|x: int| 0 <= x < k ==> (#[trigger] out[x]) == conns[x]);
        assert(forall|x: int| k <= x < out.len() ==> (#[trigger] out[x]) == conns[x + 1]);
    }
}

/// Law: commands are honoured strictly first in, first out.  With
/// `SendMessage(a)`, `SendMessage(b)`, `Stop` queued in that order, the first
/// tick dispatches `a`, the second dispatches `b`, and only the third honours
/// `Stop`; the stop flag stays clear until then.
pub proof fn lemma_commands_fifo(s: ManagerView, a: Message, b: Message)
    requires
        s.commands == seq![Command::SendMessage(a), Command::SendMessage(b), Command::Stop],
        !s.stopped,
    ensures
        ({
            let (s1, act1) = spec_tick(s);
            let (s2, act2) = spec_tick(s1);
            let (s3, act3) = spec_tick(s2);
            &&& act1 == send_step(s.connections, a).1
            &&& !s1.stopped
            &&& act2 == send_step(s1.connections, b).1
            &&& !s2.stopped
            &&& act3 == ActionView::Stopped
            &&& s3.stopped
            &&& s3.commands.len() == 0
        }),
{
    let (s1, act1) = spec_tick(s);
    assert(s.commands[0] == Command::SendMessage(a));
    assert(s1.commands =~= seq![Command::SendMessage(b), Command::Stop]);
    let (s2, act2) = spec_tick(s1);
    assert(s1.commands[0] == Command::SendMessage(b));
    assert(s2.commands =~= seq![Command::Stop]);
    let (s3, act3) = spec_tick(s2);
    assert(s2.commands[0] == Command::Stop);
    assert(s3.commands =~= Seq::<Command>::empty());
}

} // verus!
