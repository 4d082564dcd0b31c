use dp_net::host::Host;
use dp_net::line::LineReader;
use dp_net::mesh::{
    connect_failure, data_header, handle_data_stream, stream_port, update_bytes, GatewayMsg,
    HostArgs, HostMsg, Session, SessionAction, SessionError, SessionEvent,
};
use dp_net::services::ServiceInfo;

#[test]
fn stream_headers() {
    assert_eq!(data_header(3000), [0x0b, 0xb8]);
    assert_eq!(data_header(0), [0, 0]);
    for port in [0u16, 1, 255, 256, 3000, 65535] {
        assert_eq!(stream_port(&data_header(port)), port);
    }
    assert_eq!(stream_port(&[1, 2]), 258);
}

#[test]
fn connection_reaches_the_same_port_of_the_host() {
    let t = handle_data_stream(&data_header(8080)).unwrap();
    assert_eq!((t.port, t.address.as_str()), (8080, "127.0.0.1:8080"));
    assert!(handle_data_stream(&data_header(0)).is_none());
    assert_eq!(connect_failure(22), "failed to connect localhost:22");
}

#[test]
fn updates_are_control_streams() {
    assert_eq!(update_bytes("{}"), vec![0, 0, b'{', b'}', b'\n']);
}

fn host(ports: &[u16]) -> Host {
    Host::new(HostArgs {}, services(ports))
}

fn services(ports: &[u16]) -> Vec<ServiceInfo> {
    ports.iter().map(|p| ServiceInfo { port: *p, cmd: "a".to_string() }).collect()
}

#[test]
fn session_that_serves() {
    let host = host(&[22, 80]);
    let mut s = Session::new();
    assert_eq!(s.handle_peer(SessionEvent::Accepted(true), &host), SessionAction::Listen);
    assert_eq!(
        s.handle_peer(SessionEvent::Heard(Some(GatewayMsg::Subscribe)), &host),
        SessionAction::Announce(HostMsg::Services { services: services(&[22, 80]) })
    );
    assert_eq!(s.handle_peer(SessionEvent::Announced(true), &host), SessionAction::Serve);
    assert_eq!(s.handle_peer(SessionEvent::Accepted(true), &host), SessionAction::Connect);
    assert_eq!(s.handle_peer(SessionEvent::Accepted(false), &host), SessionAction::Accept);
    assert_eq!(s.handle_peer(SessionEvent::Accepted(true), &host), SessionAction::Connect);
    assert_eq!(s, Session::Serving);
}

#[test]
fn data_of_a_stream_follows_its_header() {
    let stream = [&data_header(3000)[..], b"GET"].concat();
    let t = handle_data_stream(&[stream[0], stream[1]]).unwrap();
    assert_eq!((t.port, t.address.as_str()), (3000, "127.0.0.1:3000"));
    assert_eq!(&stream[2..], b"GET");
}

#[test]
fn session_that_fails() {
    let cases = [
        (vec![], SessionEvent::Accepted(false), SessionError::AcceptStream, Some("accept bi")),
        (
            vec![SessionEvent::Accepted(true)],
            SessionEvent::Unheard,
            SessionError::ReadSubscribe,
            Some("read subscribe"),
        ),
        (
            vec![SessionEvent::Accepted(true)],
            SessionEvent::Heard(None),
            SessionError::InvalidSubscribe,
            Some("invalid subscribe"),
        ),
        (
            vec![
                SessionEvent::Accepted(true),
                SessionEvent::Heard(Some(GatewayMsg::Subscribe)),
            ],
            SessionEvent::Announced(false),
            SessionError::Announce,
            None,
        ),
    ];
    for (before, event, error, text) in cases {
        let mut s = Session::new();
        for e in before {
            s.handle_peer(e, &host(&[]));
        }
        assert_eq!(s.handle_peer(event, &host(&[])), SessionAction::Fail(error));
        assert_eq!(s, Session::Over);
        assert_eq!(error.message(), text);
    }
}

#[test]
fn update_comes_back_behind_its_header() {
    let bytes = update_bytes("größe");
    assert_eq!(stream_port(&[bytes[0], bytes[1]]), 0);
    let mut reader = LineReader::new();
    let mut lines = Vec::new();
    for b in &bytes[2..] {
        if let Some(line) = reader.read_line(Some(*b)) {
            lines.push(line.unwrap());
        }
    }
    assert_eq!(lines, vec!["größe"]);
}
