use dp_net::addr::{derive_ip, Ipv4};
use dp_net::daemon::{
    daemon_step, reader_step, route_packet, self_address, AddressError, DaemonAction, DaemonEvent,
    ReaderAction, ReaderEvent, Route,
};
use dp_net::frame::{write_frame, Frame, FrameReader, CTRL_TYPE, DATA_TYPE};
use dp_net::pool::PeerPool;

fn packet_to(ip: [u8; 4]) -> Vec<u8> {
    let mut p = vec![0u8; 24];
    p[0] = 0x45;
    p[16..20].copy_from_slice(&ip);
    p
}

fn bytes_of(hex: &str) -> [u8; 32] {
    let v = data_encoding::HEXLOWER.decode(hex.as_bytes()).unwrap();
    let mut out = [0u8; 32];
    out.copy_from_slice(&v);
    out
}

#[test]
fn address_asked_for() {
    assert_eq!(self_address(Some("100.64.0.1"), &[0; 32]), Ok(Ipv4::new(100, 64, 0, 1)));
    assert_eq!(self_address(Some("10.0.0.1"), &[0; 32]), Ok(Ipv4::new(10, 0, 0, 1)));
    assert_eq!(self_address(Some("100.64.0"), &[0; 32]), Err(AddressError::InvalidIp));
    assert_eq!(AddressError::InvalidIp.message(), "invalid IP");
}

#[test]
fn address_of_the_own_key() {
    let secret = bytes_of("9d61b19deffd5a60ba844af492ec2cc44449c5697b326919703bac031cae7f60");
    let public = bytes_of("d75a980182b10ab7d54bfed3c964073a0ee172f3daa62325af021a68f707511a");
    assert_eq!(self_address(None, &secret), Ok(derive_ip(&public)));
    assert_ne!(self_address(None, &secret), Ok(derive_ip(&secret)));
}

#[test]
fn packets_go_to_the_peer_that_they_are_for() {
    let me = Ipv4::new(100, 64, 0, 1);
    let peer = Ipv4::new(100, 64, 0, 2);
    let mut pool = PeerPool::new();
    pool.insert(peer, "peer", 0);
    pool.insert(me, "me", 0);
    let packet = packet_to([100, 64, 0, 2]);
    match route_packet(&mut pool, me, &packet, 10) {
        Route::Send { dst, to, bytes } => {
            assert_eq!((dst, to), (peer, "peer"));
            assert_eq!(bytes, write_frame(DATA_TYPE, &packet));
        }
        other => panic!("{:?}", other),
    }
    assert_eq!(pool.cleanup(10, 10), vec![me]);
    match route_packet(&mut pool, me, &packet_to([100, 100, 0, 3]), 11) {
        Route::NoRoute(ip) => assert_eq!(ip, Ipv4::new(100, 100, 0, 3)),
        other => panic!("{:?}", other),
    }
}

#[test]
fn packets_for_nobody_are_ignored() {
    let me = Ipv4::new(100, 64, 0, 1);
    let mut pool: PeerPool<u8> = PeerPool::new();
    pool.insert(me, 1, 0);
    pool.insert(Ipv4::new(8, 8, 8, 8), 2, 0);
    let mut v6 = packet_to([100, 64, 0, 2]);
    v6[0] = 0x60;
    for packet in [packet_to([100, 64, 0, 1]), packet_to([8, 8, 8, 8]), v6, vec![0x45; 19]] {
        assert!(matches!(route_packet(&mut pool, me, &packet, 1), Route::Ignore));
    }
}

#[test]
fn frames_of_a_peer() {
    let frame = |typ: u32| ReaderEvent::Frame(Frame { typ, payload: vec![1, 2] });
    match reader_step(frame(DATA_TYPE)) {
        ReaderAction::Deliver(p) => assert_eq!(p, vec![1, 2]),
        other => panic!("{:?}", other),
    }
    assert!(matches!(reader_step(frame(CTRL_TYPE)), ReaderAction::Read));
    assert!(matches!(reader_step(frame(2)), ReaderAction::Read));
    assert!(matches!(reader_step(ReaderEvent::ReadFailed), ReaderAction::Stop));
    assert!(matches!(reader_step(ReaderEvent::Delivered(true)), ReaderAction::Read));
    assert!(matches!(reader_step(ReaderEvent::Delivered(false)), ReaderAction::Stop));
}

#[test]
fn routed_packet_comes_out_at_the_peer() {
    let me = Ipv4::new(100, 64, 0, 1);
    let mut pool = PeerPool::new();
    pool.insert(Ipv4::new(100, 64, 0, 2), (), 0);
    let packet = packet_to([100, 64, 0, 2]);
    let Route::Send { bytes, .. } = route_packet(&mut pool, me, &packet, 1) else {
        panic!("not sent");
    };
    let mut reader = FrameReader::new();
    assert_eq!(reader.feed(bytes[..8].to_vec()), None);
    assert_eq!(reader.want(), packet.len());
    let frame = reader.feed(bytes[8..].to_vec()).unwrap();
    assert!(matches!(reader_step(ReaderEvent::Frame(frame)), ReaderAction::Deliver(p) if p == packet));
}

#[test]
fn main_loop_of_a_node() {
    let expected = [
        (DaemonEvent::TunRead(0), DaemonAction::Stop),
        (DaemonEvent::TunRead(20), DaemonAction::Route),
        (DaemonEvent::TunFailed, DaemonAction::Wait),
        (DaemonEvent::PeerPacket, DaemonAction::WriteTun),
        (DaemonEvent::Incoming, DaemonAction::Greet),
        (DaemonEvent::IncomingFailed, DaemonAction::Wait),
        (DaemonEvent::EndpointClosed, DaemonAction::Stop),
        (DaemonEvent::Interrupt, DaemonAction::Stop),
    ];
    for (event, action) in expected {
        assert_eq!(daemon_step(event), action);
    }
}
