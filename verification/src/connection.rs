//! One peer's transport state machine: encode on send, decode on receive,
//! route rewriting and NAT correction.
//!
//! A `Connection` holds the two addresses of one socket; the socket itself
//! lives outside the verified core, which only turns messages into frames and
//! read results into outcomes.

use vstd::prelude::*;
use crate::codec::{enc_message, lemma_decode_encode, spec_decode, decode_message, encode_message};
use crate::error::TransportError;
use crate::message::{Message, MessageView};
use crate::route::{Address, AddressType, RouterAddress};

verus! {

/// What one non-blocking socket read produced.
pub enum ReadEvent {
    /// The read would have blocked: no data available.
    WouldBlock,
    /// The bytes that were read; may be empty.
    Data(Vec<u8>),
    /// The read failed for a reason other than "would block".
    Failed,
}

/// What a connection decided about one read.
#[derive(Debug)]
pub enum ReceiveOutcome {
    /// Nothing to do: no data was available.
    NoProgress,
    /// A frame to write back to this connection's own socket: the decoded
    /// message had another network-reachable hop.
    Relay(Vec<u8>),
    /// The message reached its final transport hop; hand it to the router.
    Deliver(Message),
}

/// One active socket's addresses: this node's side and the observed peer.
#[derive(Clone, Copy, Debug, PartialEq, Eq, Structural)]
pub struct Connection {
    pub local_address: RouterAddress,
    pub peer_address: RouterAddress,
}

/// The connection state for a socket whose two endpoints are `local` and
/// `peer`, each hop tagged with its own kind.
pub open spec fn conn_of(local: Address, peer: Address) -> Connection {
    Connection {
        local_address: RouterAddress { a_type: local.spec_kind(), address: local },
        peer_address: RouterAddress { a_type: peer.spec_kind(), address: peer },
    }
}

/// The message as it goes on the wire when `c` sends `m`: the onward head is
/// consumed and the sender's own address is prepended to the return route.
pub open spec fn sent_view(c: Connection, m: MessageView) -> MessageView {
    MessageView {
        onward: m.onward.drop_first(),
        ret: seq![c.local_address] + m.ret,
        payload: m.payload,
    }
}

/// The decoded message after NAT correction: the self-reported head of the
/// return route is overwritten with the observed peer address.
pub open spec fn corrected_view(m: MessageView, peer: RouterAddress) -> MessageView
    recommends
        m.ret.len() > 0,
{
    MessageView { onward: m.onward, ret: m.ret.update(0, peer), payload: m.payload }
}

/// A decoded message is relayed onward when another hop remains and that hop
/// is reachable over a network transport.
pub open spec fn should_relay(m: MessageView) -> bool {
    m.onward.len() > 0 && (m.onward[0].a_type is Tcp || m.onward[0].a_type is Udp)
}

/// The abstract value of a [`ReceiveOutcome`].
pub enum ReceiveOutcomeView {
    NoProgress,
    Relay(Seq<u8>),
    Deliver(MessageView),
}

/// The abstract value of a receive result.
pub open spec fn outcome_view(r: Result<ReceiveOutcome, TransportError>) -> Result<
    ReceiveOutcomeView,
    TransportError,
> {
    match r {
        Ok(ReceiveOutcome::NoProgress) => Ok(ReceiveOutcomeView::NoProgress),
        Ok(ReceiveOutcome::Relay(v)) => Ok(ReceiveOutcomeView::Relay(v@)),
        Ok(ReceiveOutcome::Deliver(m)) => Ok(ReceiveOutcomeView::Deliver(m@)),
        Err(e) => Err(e),
    }
}

/// What [`Connection::receive_message`] returns, as a function of the read
/// event: no data means no progress; data is decoded, NAT-corrected with the
/// observed peer address, then relayed or delivered; failures are reported.
/// A frame whose decoded return route is empty has no head to correct and is
/// treated as undecodable: every transportable message carries at least the
/// hop its sender prepended.
pub open spec fn receive_spec(c: Connection, event: ReadEvent) -> Result<
    ReceiveOutcomeView,
    TransportError,
> {
    match event {
        ReadEvent::WouldBlock => Ok(ReceiveOutcomeView::NoProgress),
        ReadEvent::Failed => Err(TransportError::ReadFailed),
        ReadEvent::Data(d) => if d@.len() == 0 {
            Ok(ReceiveOutcomeView::NoProgress)
        } else {
            match spec_decode(d@) {
                Option::None => Err(TransportError::DecodeFailed),
                Option::Some((mv, n)) => if mv.ret.len() == 0 {
                    Err(TransportError::DecodeFailed)
                } else {
                    let cv = corrected_view(mv, c.peer_address);
                    if should_relay(cv) {
                        if sent_view(c, cv).bounded() {
                            Ok(ReceiveOutcomeView::Relay(enc_message(sent_view(c, cv))))
                        } else {
                            Err(TransportError::WriteFailed)
                        }
                    } else {
                        Ok(ReceiveOutcomeView::Deliver(cv))
                    }
                },
            }
        },
    }
}

impl Connection {
    /// Both addresses carry their own kind as tag.
    pub open spec fn wf(&self) -> bool {
        self.local_address.wf() && self.peer_address.wf()
    }

    /// Builds the connection state for a socket with these two endpoints.
    pub fn new(local: Address, peer: Address) -> (c: Connection)
        ensures
            c == conn_of(local, peer),
            c.wf(),
    {
        Connection {
            local_address: RouterAddress::from_address(local),
            peer_address: RouterAddress::from_address(peer),
        }
    }

    /// Consumes the onward route's head, prepends this connection's own
    /// address to the return route, and encodes the result as the frame to
    /// write.  Succeeds exactly when the rewritten message fits the frame
    /// format; the onward head is removed unconditionally, without checking
    /// that it names this connection's peer.
    pub fn send_message(&self, m: Message) -> (r: Result<Vec<u8>, TransportError>)
        requires
            m@.onward.len() >= 1,
        ensures
            r is Ok <==> sent_view(*self, m@).bounded(),
            r matches Ok(v) ==> v@ == enc_message(sent_view(*self, m@)),
            r matches Err(e) ==> e is WriteFailed,
    {
        let mut m = m;
        let ghost m0 = m@;
        if m.return_route.addresses.len() > 254 {
            return Err(TransportError::WriteFailed);
        }
        m.onward_route.addresses.remove(0);
        m.return_route.addresses.insert(0, self.local_address);
        proof {
            assert(m@.onward =~= sent_view(*self, m0).onward);
            assert(m@.ret =~= sent_view(*self, m0).ret);
            assert(m@ == sent_view(*self, m0));
        }
        encode_message(&m)
    }

    /// Handles the outcome of one non-blocking read.  No data means no
    /// progress; data is decoded, NAT-corrected with the observed peer
    /// address, and either relayed (another network hop remains) or delivered
    /// to the router.  The connection itself is never changed.
    pub fn receive_message(&self, event: ReadEvent) -> (r: Result<
        ReceiveOutcome,
        TransportError,
    >)
        ensures
            outcome_view(r) == receive_spec(*self, event),
    {
        match event {
            ReadEvent::WouldBlock => Ok(ReceiveOutcome::NoProgress),
            ReadEvent::Failed => Err(TransportError::ReadFailed),
            ReadEvent::Data(d) => {
                if d.len() == 0 {
                    return Ok(ReceiveOutcome::NoProgress);
                }
                match decode_message(&d) {
                    Err(_) => Err(TransportError::DecodeFailed),
                    Ok((m, _used)) => {
                        let mut m = m;
                        if m.return_route.addresses.len() == 0 {
                            return Err(TransportError::DecodeFailed);
                        }
                        let ghost mv = m@;
                        m.return_route.addresses.remove(0);
                        m.return_route.addresses.insert(0, self.peer_address);
                        proof {
                            assert(m@.ret =~= corrected_view(mv, self.peer_address).ret);
                            assert(m@ == corrected_view(mv, self.peer_address));
                        }
                        let relay = m.onward_route.addresses.len() > 0 && {
                            let t = m.onward_route.addresses[0].a_type;
                            t == AddressType::Tcp || t == AddressType::Udp
                        };
                        if relay {
                            match self.send_message(m) {
                                Ok(v) => Ok(ReceiveOutcome::Relay(v)),
                                Err(e) => Err(e),
                            }
                        } else {
                            Ok(ReceiveOutcome::Deliver(m))
                        }
                    },
                }
            },
        }
    }
}

/// Law: a frame produced by sending a well-formed message decodes to exactly
/// that message with its onward head removed and one new return hop, the
/// sender's own address, prepended.
pub proof fn lemma_send_round_trip(c: Connection, m: MessageView)
    requires
        c.wf(),
        m.hops_wf(),
        m.onward.len() >= 1,
        sent_view(c, m).bounded(),
    ensures
        spec_decode(enc_message(sent_view(c, m))) == Some(
            (sent_view(c, m), enc_message(sent_view(c, m)).len() as int),
        ),
        sent_view(c, m).onward == m.onward.drop_first(),
        sent_view(c, m).ret == seq![c.local_address] + m.ret,
        sent_view(c, m).ret.len() == m.ret.len() + 1,
        sent_view(c, m).ret[0] == c.local_address,
        sent_view(c, m).payload == m.payload,
    decreases 0int,
{
    let s = sent_view(c, m);
    assert(s.hops_wf()) by {
        assert(forall|i: int| 0 <= i < s.onward.len() ==> s.onward[i] == m.onward[i + 1]);
        assert(forall|i: int|
            1 <= i < s.ret.len() ==> (#[trigger] s.ret[i]) == m.ret[i - 1] && m.ret[i - 1].wf());
        assert(s.ret[0].wf());
    }
    lemma_decode_encode(s, Seq::<u8>::empty());
    assert(enc_message(s) + Seq::<u8>::empty() =~= enc_message(s));
}

/// Law: NAT correction stores the observed peer address as the return route's
/// head — also, and especially, when the self-reported head differed — and
/// changes nothing else.
pub proof fn lemma_nat_correction(m: MessageView, peer: RouterAddress)
    requires
        m.ret.len() > 0,
    ensures
        corrected_view(m, peer).ret[0] == peer,
        m.ret[0] != peer ==> corrected_view(m, peer).ret[0] != m.ret[0],
        corrected_view(m, peer).ret.len() == m.ret.len(),
        forall|i: int| 1 <= i < m.ret.len() ==> corrected_view(m, peer).ret[i] == m.ret[i],
        corrected_view(m, peer).onward == m.onward,
        corrected_view(m, peer).payload == m.payload,
{
}

} // verus!
