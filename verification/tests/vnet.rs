use dp_net::addr::Ipv4;
use dp_net::daemon::{route_packet, Route};
use dp_net::frame::{write_frame, CTRL_TYPE, DATA_TYPE};
use dp_net::pool::{peer_list, PeerPool};
use dp_net::vnet::{
    answer_address, greeting_address, hello, peer_target, target_with_ticket, Dial, DialAction, GreetAction,
    GreetEvent, Greeting, Join, JoinAction, JoinError, JoinEvent, PeerError, PeerInfo, VnetMsg,
};
use iroh_tickets::endpoint::EndpointTicket;
use iroh_tickets::Ticket;

fn peer(ip: &str, ticket: &str) -> PeerInfo {
    PeerInfo { ip: ip.to_string(), pubkey: String::new(), ticket: ticket.to_string() }
}

fn some_ticket() -> EndpointTicket {
    EndpointTicket::new(iroh::EndpointAddr::new(iroh::SecretKey::from_bytes(&[7; 32]).public()))
}

fn named(ip: &str) -> Option<VnetMsg> {
    Some(VnetMsg::Hello { ip: ip.to_string() })
}

#[test]
fn greeting_names_the_address() {
    let ip = Ipv4::new(100, 64, 0, 9);
    assert_eq!(hello(ip), VnetMsg::Hello { ip: "100.64.0.9".to_string() });
    assert_eq!(greeting_address(CTRL_TYPE, &Some(hello(ip))), Some(ip));
    assert_eq!(greeting_address(DATA_TYPE, &Some(hello(ip))), None);
    assert_eq!(greeting_address(CTRL_TYPE, &named("0.0.0.0")), None);
    assert_eq!(greeting_address(CTRL_TYPE, &named("100.64.0")), None);
    assert_eq!(greeting_address(CTRL_TYPE, &None), None);
    let list = Some(VnetMsg::PeerList { ip: None, peers: vec![] });
    assert_eq!(greeting_address(CTRL_TYPE, &list), None);
}

#[test]
fn node_that_greets_is_admitted() {
    let ip = Ipv4::new(100, 64, 0, 9);
    let mut g = Greeting::new();
    assert_eq!(g.step(GreetEvent::Opened(true)), GreetAction::Listen);
    let heard = GreetEvent::Heard { typ: CTRL_TYPE, msg: Some(hello(ip)) };
    assert_eq!(g.step(heard), GreetAction::Answer);
    assert_eq!(g.step(GreetEvent::Answered(true)), GreetAction::Admit(ip));
    assert_eq!(g.step(GreetEvent::Answered(true)), GreetAction::Dismiss);
}

#[test]
fn node_that_does_not_greet_is_dismissed() {
    let mut g = Greeting::new();
    assert_eq!(g.step(GreetEvent::Opened(false)), GreetAction::Dismiss);
    assert_eq!(g, Greeting::Over);
    let mut g = Greeting::new();
    g.step(GreetEvent::Opened(true));
    assert_eq!(g.step(GreetEvent::Unheard), GreetAction::Dismiss);
    let mut g = Greeting::new();
    g.step(GreetEvent::Opened(true));
    let heard = GreetEvent::Heard { typ: CTRL_TYPE, msg: None };
    assert_eq!(g.step(heard), GreetAction::Dismiss);
    let mut g = Greeting::new();
    g.step(GreetEvent::Opened(true));
    g.step(GreetEvent::Heard { typ: CTRL_TYPE, msg: named("1.2.3.4") });
    assert_eq!(g.step(GreetEvent::Answered(false)), GreetAction::Dismiss);
}

#[test]
fn announced_peer_with_a_ticket() {
    let ticket = some_ticket();
    let t = peer_target(&peer("100.64.0.3", &ticket.to_string())).unwrap();
    assert_eq!(t.ip, Ipv4::new(100, 64, 0, 3));
    assert_eq!(t.ticket, ticket.encode_bytes());
    assert_eq!(EndpointTicket::decode_bytes(&t.ticket).unwrap(), ticket);
}

#[test]
fn announced_peer_that_cannot_be_reached() {
    let ticket = some_ticket().to_string();
    let e = peer_target(&peer("somewhere", &ticket)).unwrap_err();
    assert!(matches!(e, PeerError::InvalidIp));
    assert_eq!(e.message(), "invalid peer IP");
    let e = peer_target(&peer("100.64.0.3", "")).unwrap_err();
    assert!(matches!(e, PeerError::InvalidTicket(_)));
    assert_eq!(e.message(), "invalid peer ticket");
    let e = peer_target(&peer("somewhere", "")).unwrap_err();
    assert!(matches!(e, PeerError::InvalidIp));
}

#[test]
fn target_of_a_parsed_ticket() {
    let ip = Ipv4::new(1, 2, 3, 4);
    let t = target_with_ticket(ip, Ok(vec![5, 6])).unwrap();
    assert_eq!((t.ip, t.ticket), (ip, vec![5, 6]));
    let error = "x".parse::<EndpointTicket>().unwrap_err();
    assert!(matches!(target_with_ticket(ip, Err(error)), Err(PeerError::InvalidTicket(_))));
}

#[test]
fn attempt_to_connect() {
    let ip = Ipv4::new(100, 64, 0, 3);
    let mut d = Dial::new(ip);
    assert_eq!(d.context(), Some("connect to 100.64.0.3".to_string()));
    assert_eq!(d.step(true), DialAction::Open);
    assert_eq!(d.context(), Some("open bi".to_string()));
    assert_eq!(d.step(true), DialAction::Greet);
    assert_eq!(d.context(), None);
    assert_eq!(d.step(true), DialAction::Listen);
    assert_eq!(d.step(true), DialAction::Admit(ip));
    assert_eq!(d.step(true), DialAction::Fail);
    for done in 0..4 {
        let mut d = Dial::new(ip);
        for _ in 0..done {
            d.step(true);
        }
        assert_eq!(d.step(false), DialAction::Fail);
        assert_eq!(d, Dial::Over);
    }
}

fn listening() -> Join {
    let mut j = Join::new(Ipv4::new(100, 64, 0, 8));
    assert!(matches!(j.step(JoinEvent::Done(true)), JoinAction::Open));
    assert!(matches!(j.step(JoinEvent::Done(true)), JoinAction::Greet));
    assert!(matches!(j.step(JoinEvent::Done(true)), JoinAction::Listen));
    j
}

fn answer(ip: Option<&str>, peers: Vec<PeerInfo>) -> JoinEvent {
    JoinEvent::Heard(Some(VnetMsg::PeerList { ip: ip.map(|s| s.to_string()), peers }))
}

#[test]
fn joining_through_a_node() {
    let peers = vec![peer("1.2.3.4", "t")];
    let mut j = listening();
    match j.step(answer(Some("100.64.0.1"), peers.clone())) {
        JoinAction::Connect(p) => assert_eq!(p, peers),
        other => panic!("{:?}", other),
    }
    let coordinator = Ipv4::new(100, 64, 0, 1);
    assert!(matches!(j.step(JoinEvent::Done(true)), JoinAction::Admit(ip) if ip == coordinator));
    assert_eq!(j, Join::Over);
}

#[test]
fn joining_through_a_node_that_names_no_address() {
    let own = Ipv4::new(100, 64, 0, 8);
    for name in [None, Some("0.0.0.0"), Some("nowhere")] {
        let mut j = listening();
        assert!(matches!(j.step(answer(name, vec![])), JoinAction::Connect(_)));
        assert!(matches!(j.step(JoinEvent::Done(true)), JoinAction::Admit(ip) if ip == own));
        assert_eq!(answer_address(&name.map(|s| s.to_string())), None);
    }
    let mut j = listening();
    assert!(matches!(j.step(JoinEvent::Heard(named("1.2.3.4"))), JoinAction::Unexpected));
    assert!(matches!(j.step(JoinEvent::Done(true)), JoinAction::Admit(ip) if ip == own));
}

#[test]
fn joined_node_reaches_the_coordinator() {
    let (coordinator, own) = (Ipv4::new(100, 64, 0, 1), Ipv4::new(100, 64, 0, 8));
    let far: PeerPool<&str> = PeerPool::new();
    let mut j = listening();
    assert!(matches!(
        j.step(JoinEvent::Heard(Some(peer_list(&far, coordinator)))),
        JoinAction::Connect(p) if p.is_empty()
    ));
    let JoinAction::Admit(under) = j.step(JoinEvent::Done(true)) else {
        panic!("not admitted");
    };
    let mut pool = PeerPool::new();
    pool.insert(under, "stream", 0);
    let mut packet = vec![0u8; 28];
    packet[0] = 0x45;
    packet[16..20].copy_from_slice(&[100, 64, 0, 1]);
    match route_packet(&mut pool, own, &packet, 1) {
        Route::Send { dst, to, bytes } => {
            assert_eq!((dst, to), (coordinator, "stream"));
            assert_eq!(bytes, write_frame(DATA_TYPE, &packet));
        }
        other => panic!("{:?}", other),
    }
}

#[test]
fn joining_that_fails() {
    let steps = [
        (JoinError::Connect, Some("connect to peer")),
        (JoinError::Open, Some("open bi")),
        (JoinError::Greet, None),
        (JoinError::Read, None),
    ];
    for (done, (error, text)) in steps.iter().enumerate() {
        let mut j = Join::new(Ipv4::new(100, 64, 0, 8));
        for _ in 0..done {
            j.step(JoinEvent::Done(true));
        }
        assert!(matches!(j.step(JoinEvent::Done(false)), JoinAction::Fail(e) if e == *error));
        assert_eq!(j, Join::Over);
        assert_eq!(error.message(), *text);
    }
    let mut j = listening();
    let failed = JoinAction::Fail(JoinError::InvalidPeerList);
    assert_eq!(format!("{:?}", j.step(JoinEvent::Heard(None))), format!("{:?}", failed));
    assert_eq!(JoinError::InvalidPeerList.message(), Some("invalid PeerList"));
}
