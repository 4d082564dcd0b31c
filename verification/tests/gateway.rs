use dp_net::gateway::{
    bind_address, bind_failed_line, bind_target, control_step, listener_step, opened_line,
    removed_line, BindError, ControlAction, ControlEvent, Gateway, GatewayAction, GatewayError,
    GatewayEvent, ListenerAction, ListenerEvent,
};
use dp_net::mesh::GatewayMsg;
use dp_net::services::ServiceInfo;

#[test]
fn control_loop_of_a_gateway() {
    assert!(matches!(control_step(ControlEvent::Done), ControlAction::Accept));
    assert!(matches!(control_step(ControlEvent::Stream([0, 0])), ControlAction::ReadUpdate));
    assert!(matches!(control_step(ControlEvent::Closed), ControlAction::Stop));
    assert!(matches!(control_step(ControlEvent::Interrupt), ControlAction::Stop));
    assert!(matches!(control_step(ControlEvent::Unread), ControlAction::Stop));
    assert!(matches!(control_step(ControlEvent::Line(None)), ControlAction::Apply(None)));
    let services = vec![ServiceInfo { port: 4, cmd: "d".to_string() }];
    match control_step(ControlEvent::Line(Some(services.clone()))) {
        ControlAction::Apply(Some(s)) => assert_eq!(s, services),
        other => panic!("{:?}", other),
    }
}

#[test]
fn data_stream_is_connected_to_the_port_of_its_header() {
    for (header, port) in [([0x0b, 0xb8], 3000), ([0, 1], 1), ([1, 0], 256)] {
        match control_step(ControlEvent::Stream(header)) {
            ControlAction::ConnectData(t) => {
                assert_eq!((t.port, t.address), (port, format!("127.0.0.1:{}", port)));
            }
            other => panic!("{:?}", other),
        }
    }
}

#[test]
fn address_to_bind() {
    assert_eq!(bind_target("192.168.33.0"), "192.168.33.0:0");
    assert_eq!(bind_address(Some(vec![7, 8])), Ok(7));
    assert_eq!(bind_address::<u8>(Some(vec![])), Err(BindError::NoAddress));
    assert_eq!(bind_address::<u8>(None), Err(BindError::Invalid));
    assert_eq!(BindError::NoAddress.message(), "no address resolved");
    assert_eq!(BindError::Invalid.message(), "invalid bind-ip");
}

#[test]
fn lines_about_ports() {
    assert_eq!(opened_line(80, "0.0.0.0"), "+ 80 on 0.0.0.0:80");
    assert_eq!(
        bind_failed_line(80, "::1", "in use"),
        "! 80 failed to bind ::1:80: in use"
    );
    assert_eq!(removed_line(443), "- 443 (removed)");
}

fn binding() -> Gateway {
    let mut g = Gateway::new();
    assert!(matches!(g.run_gateway::<u8>(GatewayEvent::Done(true)), GatewayAction::Open));
    assert!(matches!(
        g.run_gateway::<u8>(GatewayEvent::Done(true)),
        GatewayAction::Send(GatewayMsg::Subscribe)
    ));
    assert!(matches!(g.run_gateway::<u8>(GatewayEvent::Done(true)), GatewayAction::Resolve));
    g
}

#[test]
fn start_of_a_gateway() {
    let mut g = binding();
    assert!(matches!(
        g.run_gateway(GatewayEvent::Resolved(Some(vec![4, 5]))),
        GatewayAction::Manage(4)
    ));
    assert_eq!(g, Gateway::Over);
}

#[test]
fn start_of_a_gateway_that_fails() {
    let steps = [
        (GatewayError::Connect, Some("connect to host")),
        (GatewayError::Open, Some("open control bi")),
        (GatewayError::Subscribe, None),
    ];
    for (done, (error, text)) in steps.iter().enumerate() {
        let mut g = Gateway::new();
        for _ in 0..done {
            g.run_gateway::<u8>(GatewayEvent::Done(true));
        }
        assert!(matches!(
            g.run_gateway::<u8>(GatewayEvent::Done(false)),
            GatewayAction::Fail(e) if e == *error
        ));
        assert_eq!(g, Gateway::Over);
        assert_eq!(error.message(), *text);
    }
    for (resolved, error) in [(None, BindError::Invalid), (Some(vec![]), BindError::NoAddress)] {
        let failed = GatewayError::Bind(error);
        assert!(matches!(
            binding().run_gateway::<u8>(GatewayEvent::Resolved(resolved)),
            GatewayAction::Fail(e) if e == failed
        ));
        assert_eq!(failed.message(), Some(error.message()));
    }
}

#[test]
fn listener_of_a_port() {
    assert_eq!(listener_step(ListenerEvent::Bound(true)), ListenerAction::Accept);
    assert_eq!(listener_step(ListenerEvent::Bound(false)), ListenerAction::Stop);
    assert_eq!(listener_step(ListenerEvent::Accepted(true)), ListenerAction::Forward);
    assert_eq!(listener_step(ListenerEvent::Accepted(false)), ListenerAction::Accept);
}
