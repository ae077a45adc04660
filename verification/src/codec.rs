//! The frame codec: message to bytes and back.
//!
//! One frame is: onward hop count (1 byte), the onward hops, return hop count
//! (1 byte), the return hops, payload length (4 bytes, little endian), the
//! payload.  A hop is a kind tag (1 byte) followed by the endpoint: 4 bytes
//! for a local address, 4 host bytes and 2 port bytes (little endian) for a
//! network address.  The format is defined once as spec functions; the
//! executable encoder and decoder are proved against them, and
//! [`lemma_decode_encode`] shows the round trip is lossless.

use vstd::prelude::*;
use crate::error::TransportError;
use crate::message::{Message, MessageView};
use crate::route::{Address, AddressType, HostPort, Route, RouterAddress};

verus! {

// ---------------------------------------------------------------------------
// The format, as spec functions.
// ---------------------------------------------------------------------------

/// Two bytes, little endian.
pub open spec fn enc_u16(x: u16) -> Seq<u8> {
    seq![(x % 256) as u8, (x / 256) as u8]
}

/// Four bytes, little endian.
pub open spec fn enc_u32(x: u32) -> Seq<u8> {
    seq![
        (x % 256) as u8,
        ((x / 256) % 256) as u8,
        ((x / 65536) % 256) as u8,
        (x / 16777216) as u8,
    ]
}

/// The kind tag that starts an encoded hop.
pub open spec fn addr_tag(a: Address) -> u8 {
    match a {
        Address::Local(_) => 0u8,
        Address::Tcp(_) => 1u8,
        Address::Udp(_) => 2u8,
    }
}

/// The endpoint bytes of a hop, after its tag.
pub open spec fn enc_addr(a: Address) -> Seq<u8> {
    match a {
        Address::Local(x) => enc_u32(x),
        Address::Tcp(hp) => enc_u32(hp.host) + enc_u16(hp.port),
        Address::Udp(hp) => enc_u32(hp.host) + enc_u16(hp.port),
    }
}

/// One hop: tag then endpoint.
pub open spec fn enc_router_addr(r: RouterAddress) -> Seq<u8> {
    seq![addr_tag(r.address)] + enc_addr(r.address)
}

/// The hops of a route, in order, without the count byte.
pub open spec fn enc_route(s: Seq<RouterAddress>) -> Seq<u8>
    decreases s.len(),
{
    if s.len() == 0 {
        Seq::empty()
    } else {
        enc_router_addr(s[0]) + enc_route(s.drop_first())
    }
}

/// The whole frame for a message.
pub open spec fn enc_message(m: MessageView) -> Seq<u8> {
    seq![m.onward.len() as u8] + enc_route(m.onward) + seq![m.ret.len() as u8] + enc_route(m.ret)
        + enc_u32(m.payload.len() as u32) + m.payload
}

/// The value of two little-endian bytes.
pub open spec fn dec_u16(b: Seq<u8>) -> u16
    recommends
        b.len() == 2,
{
    (b[0] + 256 * b[1]) as u16
}

/// The value of four little-endian bytes.
pub open spec fn dec_u32(b: Seq<u8>) -> u32
    recommends
        b.len() == 4,
{
    (b[0] + 256 * b[1] + 65536 * b[2] + 16777216 * b[3]) as u32
}

/// Reads the endpoint of a hop whose tag is `tag` from the front of `b`:
/// the address and the bytes consumed, or `None` if the tag is unknown or
/// `b` is too short.
pub open spec fn dec_addr(tag: u8, b: Seq<u8>) -> Option<(Address, int)> {
    if tag == 0 {
        if b.len() >= 4 {
            Some((Address::Local(dec_u32(b.subrange(0, 4))), 4int))
        } else {
            None
        }
    } else if tag == 1 || tag == 2 {
        if b.len() >= 6 {
            let hp = HostPort { host: dec_u32(b.subrange(0, 4)), port: dec_u16(b.subrange(4, 6)) };
            Some((if tag == 1 { Address::Tcp(hp) } else { Address::Udp(hp) }, 6int))
        } else {
            None
        }
    } else {
        None
    }
}

/// Reads one hop from the front of `b`.
pub open spec fn dec_router_addr(b: Seq<u8>) -> Option<(RouterAddress, int)> {
    if b.len() < 1 {
        None
    } else {
        match dec_addr(b[0], b.drop_first()) {
            Some((a, n)) => Some((RouterAddress { a_type: a.spec_kind(), address: a }, 1 + n)),
            None => None,
        }
    }
}

/// Reads `n` hops from the front of `b`.
pub open spec fn dec_route_n(b: Seq<u8>, n: nat) -> Option<(Seq<RouterAddress>, int)>
    decreases n,
{
    if n == 0 {
        Some((Seq::empty(), 0int))
    } else {
        match dec_router_addr(b) {
            Some((ra, k)) => match dec_route_n(b.skip(k), (n - 1) as nat) {
                Some((rest, j)) => Some((seq![ra] + rest, k + j)),
                None => None,
            },
            None => None,
        }
    }
}

/// Reads a whole frame from the front of `b`: the message and the bytes
/// consumed, or `None` if no frame starts at `b`.
pub open spec fn spec_decode(b: Seq<u8>) -> Option<(MessageView, int)> {
    if b.len() < 1 {
        None
    } else {
        match dec_route_n(b.skip(1), b[0] as nat) {
            Some((onward, k1)) => {
                let b2 = b.skip(1 + k1);
                if b2.len() < 1 {
                    None
                } else {
                    match dec_route_n(b2.skip(1), b2[0] as nat) {
                        Some((ret, k2)) => {
                            let b3 = b2.skip(1 + k2);
                            if b3.len() < 4 {
                                None
                            } else {
                                let plen = dec_u32(b3.subrange(0, 4)) as int;
                                if b3.len() < 4 + plen {
                                    None
                                } else {
                                    Some((
                                        MessageView {
                                            onward,
                                            ret,
                                            payload: b3.subrange(4, 4 + plen),
                                        },
                                        1 + k1 + 1 + k2 + 4 + plen,
                                    ))
                                }
                            }
                        },
                        None => None,
                    }
                }
            },
            None => None,
        }
    }
}

// ---------------------------------------------------------------------------
// Round trip: decoding an encoded frame gives the message back.
// ---------------------------------------------------------------------------

/// Little-endian round trip for one 16-bit value.
pub proof fn lemma_u16_round(x: u16)
    ensures
        dec_u16(enc_u16(x)) == x,
{
}

/// Little-endian round trip for one 32-bit value.
pub proof fn lemma_u32_round(x: u32)
    ensures
        dec_u32(enc_u32(x)) == x,
{
    let b = enc_u32(x);
    assert(b[0] + 256 * b[1] + 65536 * b[2] + 16777216 * b[3] == x) by {
        assert(x % 256 + 256 * ((x / 256) % 256) + 65536 * ((x / 65536) % 256) + 16777216 * (x
            / 16777216) == x) by (nonlinear_arith);
    };
}

/// Concatenating routes concatenates their encodings.
pub proof fn lemma_enc_route_concat(s1: Seq<RouterAddress>, s2: Seq<RouterAddress>)
    ensures
        enc_route(s1 + s2) == enc_route(s1) + enc_route(s2),
    decreases s1.len(),
{
    if s1.len() == 0 {
        assert(s1 + s2 =~= s2);
        assert(enc_route(s1) + enc_route(s2) =~= enc_route(s2));
    } else {
        assert((s1 + s2).drop_first() =~= s1.drop_first() + s2);
        lemma_enc_route_concat(s1.drop_first(), s2);
        assert(enc_route(s1 + s2) =~= enc_route(s1) + enc_route(s2));
    }
}

/// An encoded hop followed by anything decodes to that hop.
pub proof fn lemma_dec_router_addr(ra: RouterAddress, suffix: Seq<u8>)
    requires
        ra.wf(),
    ensures
        enc_router_addr(ra).len() >= 1,
        dec_router_addr(enc_router_addr(ra) + suffix) == Some(
            (ra, enc_router_addr(ra).len() as int),
        ),
{
    let b = enc_router_addr(ra) + suffix;
    let rest = b.drop_first();
    assert(b[0] == addr_tag(ra.address));
    match ra.address {
        Address::Local(x) => {
            assert(rest.subrange(0, 4) =~= enc_u32(x));
            lemma_u32_round(x);
        },
        Address::Tcp(hp) => {
            assert(rest.subrange(0, 4) =~= enc_u32(hp.host));
            assert(rest.subrange(4, 6) =~= enc_u16(hp.port));
            lemma_u32_round(hp.host);
            lemma_u16_round(hp.port);
        },
        Address::Udp(hp) => {
            assert(rest.subrange(0, 4) =~= enc_u32(hp.host));
            assert(rest.subrange(4, 6) =~= enc_u16(hp.port));
            lemma_u32_round(hp.host);
            lemma_u16_round(hp.port);
        },
    }
}

/// An encoded route followed by anything decodes to that route.
pub proof fn lemma_dec_route(s: Seq<RouterAddress>, suffix: Seq<u8>)
    requires
        forall|i: int| 0 <= i < s.len() ==> (#[trigger] s[i]).wf(),
    ensures
        dec_route_n(enc_route(s) + suffix, s.len()) == Some((s, enc_route(s).len() as int)),
    decreases s.len(),
{
    if s.len() == 0 {
        assert(enc_route(s) + suffix =~= suffix);
        assert(dec_route_n(suffix, 0) == Some((Seq::<RouterAddress>::empty(), 0int)));
        assert(Seq::<RouterAddress>::empty() =~= s);
    } else {
        let head = s[0];
        let tail = s.drop_first();
        let b = enc_route(s) + suffix;
        let k = enc_router_addr(head).len() as int;
        assert(b =~= enc_router_addr(head) + (enc_route(tail) + suffix));
        lemma_dec_router_addr(head, enc_route(tail) + suffix);
        assert(b.skip(k) =~= enc_route(tail) + suffix);
        lemma_dec_route(tail, suffix);
        assert(seq![head] + tail =~= s);
    }
}

/// Decoding an encoded frame, with any trailing bytes, gives back exactly the
/// message and the frame length.
#[verifier::rlimit(60)]
pub proof fn lemma_decode_encode(m: MessageView, suffix: Seq<u8>)
    requires
        m.wf(),
    ensures
        spec_decode(enc_message(m) + suffix) == Some((m, enc_message(m).len() as int)),
{
    let b = enc_message(m) + suffix;
    let r1 = enc_route(m.onward);
    let r2 = enc_route(m.ret);
    let lenb = enc_u32(m.payload.len() as u32);
    assert(b[0] == m.onward.len() as u8);
    assert(b.skip(1) =~= r1 + (seq![m.ret.len() as u8] + r2 + lenb + m.payload + suffix));
    lemma_dec_route(m.onward, seq![m.ret.len() as u8] + r2 + lenb + m.payload + suffix);
    let b2 = b.skip(1 + r1.len() as int);
    assert(b2 =~= seq![m.ret.len() as u8] + r2 + lenb + m.payload + suffix);
    assert(b2[0] == m.ret.len() as u8);
    assert(b2.skip(1) =~= r2 + (lenb + m.payload + suffix));
    lemma_dec_route(m.ret, lenb + m.payload + suffix);
    let b3 = b2.skip(1 + r2.len() as int);
    assert(b3 =~= lenb + m.payload + suffix);
    assert(b3.subrange(0, 4) =~= lenb);
    lemma_u32_round(m.payload.len() as u32);
    assert(dec_u32(b3.subrange(0, 4)) == m.payload.len());
    assert(b3.subrange(4, 4 + m.payload.len() as int) =~= m.payload);
    let got = spec_decode(b);
    assert(got == Some(
        (
            MessageView { onward: m.onward, ret: m.ret, payload: m.payload },
            1 + r1.len() + 1 + r2.len() + 4 + m.payload.len() as int,
        ),
    ));
    assert(MessageView { onward: m.onward, ret: m.ret, payload: m.payload } =~= m);
    assert(enc_message(m).len() == 1 + r1.len() + 1 + r2.len() + 4 + m.payload.len());
}

// ---------------------------------------------------------------------------
// Executable encoder.
// ---------------------------------------------------------------------------

/// Appends the two little-endian bytes of `x`.
fn push_u16(v: &mut Vec<u8>, x: u16)
    ensures
        final(v)@ == old(v)@ + enc_u16(x),
{
    v.push((x % 256) as u8);
    v.push((x / 256) as u8);
    assert(final(v)@ =~= old(v)@ + enc_u16(x));
}

/// Appends the four little-endian bytes of `x`.
fn push_u32(v: &mut Vec<u8>, x: u32)
    ensures
        final(v)@ == old(v)@ + enc_u32(x),
{
    v.push((x % 256) as u8);
    v.push(((x / 256) % 256) as u8);
    v.push(((x / 65536) % 256) as u8);
    v.push((x / 16777216) as u8);
    assert(final(v)@ =~= old(v)@ + enc_u32(x));
}

/// Appends one encoded hop.
fn push_router_addr(v: &mut Vec<u8>, ra: &RouterAddress)
    ensures
        final(v)@ == old(v)@ + enc_router_addr(*ra),
{
    match ra.address {
        Address::Local(x) => {
            v.push(0u8);
            push_u32(v, x);
        },
        Address::Tcp(hp) => {
            v.push(1u8);
            push_u32(v, hp.host);
            push_u16(v, hp.port);
        },
        Address::Udp(hp) => {
            v.push(2u8);
            push_u32(v, hp.host);
            push_u16(v, hp.port);
        },
    }
    assert(final(v)@ =~= old(v)@ + enc_router_addr(*ra));
}

/// Appends the encoded hops of a route, without the count byte.
fn push_route(v: &mut Vec<u8>, route: &Route)
    ensures
        final(v)@ == old(v)@ + enc_route(route@),
{
    let n = route.addresses.len();
    let mut i: usize = 0;
    while i < n
        invariant
            i <= n,
            n == route.addresses.len(),
            v@ == old(v)@ + enc_route(route@.subrange(0, i as int)),
        decreases n - i,
    {
        push_router_addr(v, &route.addresses[i]);
        proof {
            let pre = route@.subrange(0, i as int);
            let one = seq![route@[i as int]];
            assert(route@.subrange(0, i + 1 as int) =~= pre + one);
            lemma_enc_route_concat(pre, one);
            assert(one.drop_first() =~= Seq::<RouterAddress>::empty());
            assert(enc_route(one.drop_first()) =~= Seq::<u8>::empty());
            assert(enc_route(one) =~= enc_router_addr(route@[i as int]));
        }
        i = i + 1;
    }
    assert(route@.subrange(0, n as int) =~= route@);
}

/// Encodes a message into one frame.  Succeeds exactly when the message is
/// within the format's bounds; the bytes are then exactly [`enc_message`] of
/// the message.
pub fn encode_message(m: &Message) -> (r: Result<Vec<u8>, TransportError>)
    ensures
        r is Ok <==> m@.bounded(),
        r matches Ok(v) ==> v@ == enc_message(m@),
        r matches Err(e) ==> e is WriteFailed,
{
    if m.onward_route.addresses.len() > 255 || m.return_route.addresses.len() > 255 {
        return Err(TransportError::WriteFailed);
    }
    if m.payload.len() > u32::MAX as usize {
        return Err(TransportError::WriteFailed);
    }
    let mut v: Vec<u8> = Vec::new();
    v.push(m.onward_route.addresses.len() as u8);
    push_route(&mut v, &m.onward_route);
    v.push(m.return_route.addresses.len() as u8);
    push_route(&mut v, &m.return_route);
    push_u32(&mut v, m.payload.len() as u32);
    let mut i: usize = 0;
    let ghost before = v@;
    while i < m.payload.len()
        invariant
            i <= m.payload.len(),
            v@ == before + m.payload@.subrange(0, i as int),
        decreases m.payload.len() - i,
    {
        v.push(m.payload[i]);
        assert(v@ =~= before + m.payload@.subrange(0, i + 1 as int));
        i = i + 1;
    }
    assert(m.payload@.subrange(0, m.payload@.len() as int) =~= m.payload@);
    assert(v@ =~= enc_message(m@));
    Ok(v)
}

// ---------------------------------------------------------------------------
// Executable decoder.
// ---------------------------------------------------------------------------

/// Reads one hop at `pos`; mirrors [`dec_router_addr`] on the bytes from
/// `pos`.
fn decode_router_addr(bytes: &Vec<u8>, pos: usize) -> (r: Result<
    (RouterAddress, usize),
    TransportError,
>)
    requires
        pos <= bytes@.len(),
    ensures
        r matches Ok((ra, p2)) ==> {
            &&& dec_router_addr(bytes@.skip(pos as int)) == Some((ra, p2 - pos))
            &&& pos < p2 <= bytes@.len()
        },
        r is Err <==> dec_router_addr(bytes@.skip(pos as int)) is None,
        r matches Err(e) ==> e is DecodeFailed,
{
    let ghost b = bytes@.skip(pos as int);
    if pos >= bytes.len() {
        return Err(TransportError::DecodeFailed);
    }
    let tag = bytes[pos];
    assert(b[0] == tag);
    let ghost rest = b.drop_first();
    if tag == 0 {
        if bytes.len() - (pos + 1) < 4 {
            assert(rest.len() < 4);
            return Err(TransportError::DecodeFailed);
        }
        let x = read_u32(bytes, pos + 1);
        assert(bytes@.subrange(pos + 1 as int, pos + 5 as int) =~= rest.subrange(0, 4));
        Ok((RouterAddress { a_type: AddressType::Local, address: Address::Local(x) }, pos + 5))
    } else if tag == 1 || tag == 2 {
        if bytes.len() - (pos + 1) < 6 {
            assert(rest.len() < 6);
            return Err(TransportError::DecodeFailed);
        }
        let host = read_u32(bytes, pos + 1);
        let port = read_u16(bytes, pos + 5);
        assert(bytes@.subrange(pos + 1 as int, pos + 5 as int) =~= rest.subrange(0, 4));
        assert(bytes@.subrange(pos + 5 as int, pos + 7 as int) =~= rest.subrange(4, 6));
        let hp = HostPort { host, port };
        if tag == 1 {
            Ok((RouterAddress { a_type: AddressType::Tcp, address: Address::Tcp(hp) }, pos + 7))
        } else {
            Ok((RouterAddress { a_type: AddressType::Udp, address: Address::Udp(hp) }, pos + 7))
        }
    } else {
        Err(TransportError::DecodeFailed)
    }
}

/// The value of the two little-endian bytes at `pos`.
fn read_u16(bytes: &Vec<u8>, pos: usize) -> (x: u16)
    requires
        pos + 2 <= bytes@.len(),
    ensures
        x == dec_u16(bytes@.subrange(pos as int, pos + 2 as int)),
{
    let _n = bytes.len();
    let b0 = bytes[pos] as u16;
    let b1 = bytes[pos + 1] as u16;
    b0 + 256 * b1
}

/// The value of the four little-endian bytes at `pos`.
fn read_u32(bytes: &Vec<u8>, pos: usize) -> (x: u32)
    requires
        pos + 4 <= bytes@.len(),
    ensures
        x == dec_u32(bytes@.subrange(pos as int, pos + 4 as int)),
{
    let _n = bytes.len();
    let b0 = bytes[pos] as u32;
    let b1 = bytes[pos + 1] as u32;
    let b2 = bytes[pos + 2] as u32;
    let b3 = bytes[pos + 3] as u32;
    b0 + 256 * b1 + 65536 * b2 + 16777216 * b3
}

/// Reads `n` hops starting at `pos`; mirrors [`dec_route_n`].
fn decode_route(bytes: &Vec<u8>, pos: usize, n: u8) -> (r: Result<
    (Vec<RouterAddress>, usize),
    TransportError,
>)
    requires
        pos <= bytes@.len(),
    ensures
        r matches Ok((hops, p2)) ==> {
            &&& dec_route_n(bytes@.skip(pos as int), n as nat) == Some((hops@, p2 - pos))
            &&& pos <= p2 <= bytes@.len()
        },
        r is Err <==> dec_route_n(bytes@.skip(pos as int), n as nat) is None,
        r matches Err(e) ==> e is DecodeFailed,
    decreases n,
{
    let ghost b = bytes@.skip(pos as int);
    if n == 0 {
        let hops: Vec<RouterAddress> = Vec::new();
        assert(hops@ =~= Seq::<RouterAddress>::empty());
        return Ok((hops, pos));
    }
    match decode_router_addr(bytes, pos) {
        Err(e) => Err(e),
        Ok((ra, p1)) => {
            let ghost k = p1 - pos;
            assert(b.skip(k) =~= bytes@.skip(p1 as int));
            match decode_route(bytes, p1, n - 1) {
                Err(e) => Err(e),
                Ok((rest, p2)) => {
                    let mut hops = rest;
                    hops.insert(0, ra);
                    assert(hops@ =~= seq![ra] + hops@.drop_first());
                    Ok((hops, p2))
                },
            }
        },
    }
}

/// Decodes one frame from the front of `bytes`: the message and the number of
/// bytes consumed.  Succeeds exactly when [`spec_decode`] does, and returns
/// exactly its value; fails with `DecodeFailed` otherwise.
#[verifier::rlimit(60)]
pub fn decode_message(bytes: &Vec<u8>) -> (r: Result<(Message, usize), TransportError>)
    ensures
        r matches Ok((m, used)) ==> spec_decode(bytes@) == Some((m@, used as int)),
        r is Err <==> spec_decode(bytes@) is None,
        r matches Err(e) ==> e is DecodeFailed,
{
    if bytes.len() < 1 {
        return Err(TransportError::DecodeFailed);
    }
    let n1 = bytes[0];
    assert(bytes@.skip(1).skip(0) =~= bytes@.skip(1));
    let (onward, p1) = match decode_route(bytes, 1, n1) {
        Err(e) => {
            assert(bytes@.skip(1) =~= bytes@.skip(0 as int).skip(1));
            return Err(e);
        },
        Ok(x) => x,
    };
    proof {
        assert(bytes@.skip(1) == bytes@.skip(1int));
        assert(dec_route_n(bytes@.skip(1int), n1 as nat) == Some((onward@, p1 - 1)));
    }
    let ghost b2 = bytes@.skip(p1 as int);
    if bytes.len() - p1 < 1 {
        return Err(TransportError::DecodeFailed);
    }
    let n2 = bytes[p1];
    assert(b2[0] == n2);
    assert(b2.skip(1) =~= bytes@.skip(p1 + 1 as int));
    let (ret, p2) = match decode_route(bytes, p1 + 1, n2) {
        Err(e) => {
            return Err(e);
        },
        Ok(x) => x,
    };
    let ghost b3 = bytes@.skip(p2 as int);
    if bytes.len() - p2 < 4 {
        return Err(TransportError::DecodeFailed);
    }
    let plen = read_u32(bytes, p2);
    assert(bytes@.subrange(p2 as int, p2 + 4 as int) =~= b3.subrange(0, 4));
    let blen = bytes.len();
    let avail = blen - (p2 + 4);
    if (avail as u64) < (plen as u64) {
        assert(b3.len() < 4 + plen);
        return Err(TransportError::DecodeFailed);
    }
    let plen_usize = plen as usize;
    assert(plen_usize == plen as int);
    let mut payload: Vec<u8> = Vec::new();
    let mut i: usize = 0;
    while i < plen_usize
        invariant
            i <= plen_usize,
            blen == bytes@.len(),
            p2 + 4 + plen_usize <= blen,
            payload@ == bytes@.subrange(p2 + 4 as int, p2 + 4 + i as int),
        decreases plen_usize - i,
    {
        payload.push(bytes[p2 + 4 + i]);
        assert(payload@ =~= bytes@.subrange(p2 + 4 as int, p2 + 4 + (i + 1) as int));
        i = i + 1;
    }
    assert(payload@ =~= b3.subrange(4, 4 + plen as int));
    let m = Message {
        onward_route: Route { addresses: onward },
        return_route: Route { addresses: ret },
        payload,
    };
    let used = p2 + 4 + plen_usize;
    proof {
        let b = bytes@;
        let k1 = p1 - 1;
        let k2 = p2 - (p1 + 1);
        assert(b.skip(1 + k1) =~= b2);
        assert(b2.skip(1 + k2) =~= b3);
        assert(dec_route_n(b2.skip(1), n2 as nat) == Some((ret@, k2)));
        assert(dec_u32(b3.subrange(0, 4)) == plen);
        assert(b3.len() >= 4 + plen);
        assert(m@.payload == b3.subrange(4, 4 + plen as int));
        assert(spec_decode(bytes@) == Some((m@, used as int)));
    }
    Ok((m, used))
}

} // verus!
