use hoprelay::codec::{decode_message, encode_message};
use hoprelay::connection::{Connection, ReadEvent, ReceiveOutcome};
use hoprelay::error::TransportError;
use hoprelay::manager::{
    BindOutcome, Command, ConnectOutcome, ReadAction, TcpManager, TickAction,
};
use hoprelay::message::Message;
use hoprelay::route::{Address, AddressType, HostPort, Route, RouterAddress};

fn tcp(host: u32, port: u16) -> Address {
    Address::Tcp(HostPort { host, port })
}

fn hop(a: Address) -> RouterAddress {
    RouterAddress::from_address(a)
}

fn route(hops: Vec<RouterAddress>) -> Route {
    Route { addresses: hops }
}

fn message(onward: Vec<RouterAddress>, ret: Vec<RouterAddress>, payload: &[u8]) -> Message {
    Message::new(route(onward), route(ret), payload.to_vec())
}

#[test]
fn codec_exact_bytes_for_tiny_message() {
    // empty routes, payload [7]: counts 0,0; length 1 little endian; payload
    let m = message(vec![], vec![], &[7]);
    let bytes = encode_message(&m).unwrap();
    assert_eq!(bytes, vec![0u8, 0, 1, 0, 0, 0, 7]);
}

#[test]
fn codec_round_trip() {
    let m = message(
        vec![hop(tcp(0x7f000001, 4051)), hop(Address::Local(9))],
        vec![hop(Address::Udp(HostPort { host: 8, port: 9 }))],
        b"ping",
    );
    let bytes = encode_message(&m).unwrap();
    let (back, used) = decode_message(&bytes).unwrap();
    assert_eq!(used, bytes.len());
    assert_eq!(back.onward_route.addresses, m.onward_route.addresses);
    assert_eq!(back.return_route.addresses, m.return_route.addresses);
    assert_eq!(back.payload, m.payload);
}

#[test]
fn codec_round_trip_ignores_trailing_bytes() {
    let m = message(vec![hop(Address::Local(1))], vec![hop(tcp(5, 6))], &[1, 2, 3]);
    let mut bytes = encode_message(&m).unwrap();
    let frame_len = bytes.len();
    bytes.push(0xAA);
    bytes.push(0xBB);
    let (back, used) = decode_message(&bytes).unwrap();
    assert_eq!(used, frame_len);
    assert_eq!(back.payload, vec![1, 2, 3]);
}

#[test]
fn decode_rejects_garbage() {
    assert_eq!(decode_message(&vec![]).unwrap_err(), TransportError::DecodeFailed);
    assert_eq!(decode_message(&vec![1, 9, 9]).unwrap_err(), TransportError::DecodeFailed);
    // valid counts but truncated payload length
    assert_eq!(decode_message(&vec![0, 0, 5, 0, 0, 0]).unwrap_err(), TransportError::DecodeFailed);
    // payload length larger than what follows
    assert_eq!(
        decode_message(&vec![0, 0, 5, 0, 0, 0, 1, 2]).unwrap_err(),
        TransportError::DecodeFailed
    );
}

#[test]
fn codec_handles_extreme_field_values() {
    let m = message(
        vec![hop(tcp(u32::MAX, u16::MAX)), hop(Address::Local(u32::MAX))],
        vec![hop(Address::Udp(HostPort { host: 0, port: 0 }))],
        &[0, 255],
    );
    let bytes = encode_message(&m).unwrap();
    let (back, _) = decode_message(&bytes).unwrap();
    assert_eq!(back.onward_route.addresses, m.onward_route.addresses);
    assert_eq!(back.return_route.addresses, m.return_route.addresses);
    assert_eq!(back.payload, m.payload);
}

#[test]
fn codec_accepts_largest_route() {
    let mut hops = Vec::new();
    for i in 0..255u32 {
        hops.push(hop(Address::Local(i)));
    }
    let m = Message::new(route(hops.clone()), Route::new(), vec![]);
    let bytes = encode_message(&m).unwrap();
    let (back, _) = decode_message(&bytes).unwrap();
    assert_eq!(back.onward_route.addresses.len(), 255);
    assert_eq!(back.onward_route.addresses, hops);
    assert!(back.return_route.addresses.is_empty());
}

#[test]
fn encode_rejects_oversized_routes() {
    let mut hops = Vec::new();
    for _ in 0..256 {
        hops.push(hop(Address::Local(1)));
    }
    let m = message(hops, vec![], &[]);
    assert_eq!(encode_message(&m).unwrap_err(), TransportError::WriteFailed);
}

// The on-wire frame of a sent message, decoded, shows the onward head removed
// and the sender's own address prepended to the return route.
#[test]
fn sent_frame_rewrites_routes() {
    let local = tcp(0x0a000001, 7000);
    let peer = tcp(0x0a000002, 7001);
    let conn = Connection::new(local, peer);
    let far = tcp(0x0a000003, 7002);
    let m = message(vec![hop(peer), hop(far)], vec![hop(Address::Local(4))], b"pay");
    let frame = conn.send_message(m).unwrap();
    let (back, _) = decode_message(&frame).unwrap();
    // original head (peer) removed
    assert_eq!(back.onward_route.addresses, vec![hop(far)]);
    // exactly one new return hop, the sender's local address
    assert_eq!(back.return_route.addresses.len(), 2);
    assert_eq!(back.return_route.addresses[0], hop(local));
    assert_eq!(back.return_route.addresses[1], hop(Address::Local(4)));
    assert_eq!(back.payload, b"pay".to_vec());
}

#[test]
fn send_fails_when_return_route_is_full() {
    let conn = Connection::new(tcp(1, 1), tcp(2, 2));
    let mut ret = Vec::new();
    for _ in 0..255 {
        ret.push(hop(Address::Local(0)));
    }
    let m = message(vec![hop(tcp(2, 2))], ret, &[]);
    assert_eq!(conn.send_message(m).unwrap_err(), TransportError::WriteFailed);
}

// NAT correction: the stored return-route head is the observed peer address,
// not the self-reported one.
#[test]
fn receive_overwrites_self_reported_return_head() {
    let local = tcp(0x0a000001, 7000);
    let observed_peer = tcp(0x0a000009, 7009);
    let conn = Connection::new(local, observed_peer);
    let self_reported = tcp(0x0a000099, 9999);
    // final hop here: onward route holds a local address
    let m = message(vec![hop(Address::Local(3))], vec![hop(self_reported)], b"hi");
    let frame = encode_message(&m).unwrap();
    match conn.receive_message(ReadEvent::Data(frame)).unwrap() {
        ReceiveOutcome::Deliver(got) => {
            assert_eq!(got.return_route.addresses[0], hop(observed_peer));
            assert_ne!(got.return_route.addresses[0], hop(self_reported));
            assert_eq!(got.payload, b"hi".to_vec());
        }
        _ => panic!("expected delivery"),
    }
}

#[test]
fn receive_relays_when_next_hop_is_network_reachable() {
    let local = tcp(0x0a000001, 7000);
    let peer = tcp(0x0a000002, 7001);
    let conn = Connection::new(local, peer);
    let next = tcp(0x0a000003, 7002);
    let m = message(vec![hop(next)], vec![hop(peer)], b"fwd");
    let frame = encode_message(&m).unwrap();
    match conn.receive_message(ReadEvent::Data(frame)).unwrap() {
        ReceiveOutcome::Relay(out) => {
            let (back, _) = decode_message(&out).unwrap();
            // the relay consumed the next hop and prepended its own address
            assert!(back.onward_route.addresses.is_empty());
            assert_eq!(back.return_route.addresses[0], hop(local));
            assert_eq!(back.return_route.addresses[1], hop(peer));
            assert_eq!(back.payload, b"fwd".to_vec());
        }
        _ => panic!("expected relay"),
    }
}

// receive() with nothing to read reports no progress and changes nothing.
#[test]
fn receive_no_data_is_no_progress() {
    let conn = Connection::new(tcp(1, 1), tcp(2, 2));
    assert!(matches!(
        conn.receive_message(ReadEvent::WouldBlock).unwrap(),
        ReceiveOutcome::NoProgress
    ));
    assert!(matches!(
        conn.receive_message(ReadEvent::Data(vec![])).unwrap(),
        ReceiveOutcome::NoProgress
    ));
    // and at the manager: the pool is untouched
    let (_reg, mgr) = TcpManager::new(BindOutcome::NotRequested);
    let mut mgr = mgr.unwrap();
    mgr.add_connection(tcp(2, 2), tcp(1, 1));
    let before = mgr.connection_count();
    match mgr.handle_read(tcp(2, 2), ReadEvent::WouldBlock) {
        ReadAction::NoProgress => {}
        _ => panic!("expected no progress"),
    }
    assert_eq!(mgr.connection_count(), before);
}

#[test]
fn receive_read_failure_is_read_failed() {
    let conn = Connection::new(tcp(1, 1), tcp(2, 2));
    assert_eq!(
        conn.receive_message(ReadEvent::Failed).unwrap_err(),
        TransportError::ReadFailed
    );
}

#[test]
fn receive_bad_frame_is_decode_failed() {
    let conn = Connection::new(tcp(1, 1), tcp(2, 2));
    assert_eq!(
        conn.receive_message(ReadEvent::Data(vec![9, 9, 9])).unwrap_err(),
        TransportError::DecodeFailed
    );
}

// A failed connect reports ConnectFailed and leaves the pool unchanged.
#[test]
fn connect_failure_leaves_pool_unchanged() {
    let (_reg, mgr) = TcpManager::new(BindOutcome::NotRequested);
    let mut mgr = mgr.unwrap();
    assert_eq!(mgr.connection_count(), 0);
    assert_eq!(mgr.connect(ConnectOutcome::Failed).unwrap_err(), TransportError::ConnectFailed);
    assert_eq!(mgr.connection_count(), 0);
    let got = mgr.connect(ConnectOutcome::Connected(tcp(9, 9), tcp(1, 1))).unwrap();
    assert_eq!(got, tcp(9, 9));
    assert_eq!(mgr.connection_count(), 1);
    assert_eq!(mgr.connect(ConnectOutcome::Failed).unwrap_err(), TransportError::ConnectFailed);
    assert_eq!(mgr.connection_count(), 1);
    assert!(mgr.has_connection(tcp(9, 9)));
}

#[test]
fn bind_failure_is_fatal_to_construction() {
    let (reg, mgr) = TcpManager::new(BindOutcome::Failed);
    assert!(matches!(reg, Command::Register(AddressType::Tcp)));
    assert_eq!(mgr.unwrap_err(), TransportError::BindFailed);
}

// Commands are processed strictly first in, first out: both sends happen
// before Stop is honoured.
#[test]
fn commands_are_fifo() {
    let (_reg, mgr) = TcpManager::new(BindOutcome::NotRequested);
    let mut mgr = mgr.unwrap();
    let peer_a = tcp(10, 10);
    mgr.add_connection(peer_a, tcp(1, 1));
    let msg_a = message(vec![hop(peer_a)], vec![], b"a");
    let msg_b = message(vec![hop(tcp(99, 99))], vec![], b"b");
    mgr.enqueue_command(Command::SendMessage(msg_a));
    mgr.enqueue_command(Command::SendMessage(msg_b));
    mgr.enqueue_command(Command::Stop);

    match mgr.process_next_command() {
        TickAction::Write(peer, frame) => {
            assert_eq!(peer, peer_a);
            let (back, _) = decode_message(&frame).unwrap();
            assert_eq!(back.payload, b"a".to_vec());
        }
        _ => panic!("first command should dispatch message a"),
    }
    assert!(!mgr.is_stopped());

    match mgr.process_next_command() {
        TickAction::NoRoute => {}
        _ => panic!("second command should find no connection for message b"),
    }
    assert!(!mgr.is_stopped());

    match mgr.process_next_command() {
        TickAction::Stopped => {}
        _ => panic!("third command should be the stop"),
    }
    assert!(mgr.is_stopped());
    assert!(matches!(mgr.process_next_command(), TickAction::Idle));
}

// A connection whose read fails is removed and reported; the manager runs on.
#[test]
fn failing_connection_is_isolated() {
    let (_reg, mgr) = TcpManager::new(BindOutcome::NotRequested);
    let mut mgr = mgr.unwrap();
    let bad = tcp(5, 5);
    let good = tcp(6, 6);
    mgr.add_connection(bad, tcp(1, 1));
    mgr.add_connection(good, tcp(1, 1));
    match mgr.handle_read(bad, ReadEvent::Data(vec![255])) {
        ReadAction::Dropped(peer, err) => {
            assert_eq!(peer, bad);
            assert_eq!(err, TransportError::DecodeFailed);
        }
        _ => panic!("expected the bad connection to be dropped"),
    }
    assert!(!mgr.has_connection(bad));
    assert!(mgr.has_connection(good));
    assert!(!mgr.is_stopped());
}

// Two managers: A listening, B connecting.  B sends "ping" with onward route
// [A]; A's router-bound delivery carries payload "ping" and a return route
// headed by B's observed address.
#[test]
fn end_to_end_ping() {
    let a_listen = tcp(0x7f000001, 4051);
    let b_observed = tcp(0x7f000001, 53111);

    let (reg_a, mgr_a) = TcpManager::new(BindOutcome::Bound);
    assert!(matches!(reg_a, Command::Register(AddressType::Tcp)));
    let mut a = mgr_a.unwrap();

    let (reg_b, mgr_b) = TcpManager::new(BindOutcome::NotRequested);
    assert!(matches!(reg_b, Command::Register(AddressType::Tcp)));
    let mut b = mgr_b.unwrap();

    // B connects out to A; A accepts the inbound socket.
    let handle = b.connect(ConnectOutcome::Connected(a_listen, b_observed)).unwrap();
    assert_eq!(handle, a_listen);
    a.add_connection(b_observed, a_listen);

    // B's router asks it to send "ping" toward A.
    let m = message(vec![hop(a_listen)], vec![], b"ping");
    b.enqueue_command(Command::SendMessage(m));
    let frame = match b.process_next_command() {
        TickAction::Write(peer, frame) => {
            assert_eq!(peer, a_listen);
            frame
        }
        _ => panic!("B should produce a frame for A"),
    };

    // The frame crosses the wire; A reads it on the accepted connection.
    match a.handle_read(b_observed, ReadEvent::Data(frame)) {
        ReadAction::Deliver(got) => {
            assert_eq!(got.payload, b"ping".to_vec());
            assert_eq!(got.return_route.addresses[0].address, b_observed);
            assert!(got.onward_route.addresses.is_empty());
        }
        _ => panic!("A should deliver the ping to its router"),
    }
}
