use dp_net::host::{
    service_report, update_step, Host, HostAction, HostEvent, UpdateAction, UpdateEvent,
};
use dp_net::mesh::{HostArgs, HostMsg};
use dp_net::services::ServiceInfo;

fn services(ports: &[u16]) -> Vec<ServiceInfo> {
    ports.iter().map(|p| ServiceInfo { port: *p, cmd: "a".to_string() }).collect()
}

fn told(host: &Host) -> Vec<ServiceInfo> {
    let HostMsg::Services { services } = host.subscribed();
    services
}

#[test]
fn subscriber_is_told_the_scan_at_the_start() {
    let mut host = Host::new(HostArgs {}, services(&[22, 80]));
    assert_eq!(told(&host), services(&[22, 80]));
    assert_eq!(host.scanned(None), None);
    assert_eq!(host.scanned(Some(services(&[22, 80]))), Some(services(&[22, 80])));
    assert_eq!(host.scanned(Some(services(&[22, 80]))), None);
    assert_eq!(host.scanned(None), None);
    assert_eq!(host.run_host(HostEvent::Connected), HostAction::Serve);
    assert_eq!(told(&host), services(&[22, 80]));
}

#[test]
fn subscriber_is_told_the_last_scan() {
    let mut host = Host::new(HostArgs {}, services(&[22]));
    assert_eq!(host.scanned(Some(services(&[22, 80]))), Some(services(&[22, 80])));
    assert_eq!(host.scanned(None), None);
    assert_eq!(told(&host), services(&[22, 80]));
    assert_eq!(host.scanned(Some(vec![])), Some(vec![]));
    assert_eq!(told(&host), vec![]);
}

#[test]
fn subscriber_that_takes_updates_keeps_up() {
    let mut host = Host::new(HostArgs {}, services(&[1]));
    host.scanned(Some(services(&[2])));
    let mut known = told(&host);
    for scan in [Some(services(&[2])), None, Some(services(&[3])), None, Some(services(&[3]))] {
        if let Some(update) = host.scanned(scan) {
            known = update;
        }
        assert_eq!(known, told(&host));
    }
    assert_eq!(known, services(&[3]));
}

#[test]
fn services_gone_since_the_start_are_published() {
    let mut host = Host::new(HostArgs {}, services(&[22]));
    assert_eq!(told(&host), services(&[22]));
    assert_eq!(host.scanned(Some(vec![])), Some(vec![]));
    assert_eq!(host.scanned(Some(vec![])), None);
    assert_eq!(told(&host), vec![]);
    let mut host = Host::new(HostArgs {}, vec![]);
    assert_eq!(host.scanned(Some(vec![])), None);
}

#[test]
fn main_loop_of_a_host() {
    let mut host = Host::new(HostArgs {}, vec![]);
    assert_eq!(host.run_host(HostEvent::Connected), HostAction::Serve);
    assert_eq!(host.run_host(HostEvent::ConnectFailed), HostAction::Wait);
    assert_eq!(host.run_host(HostEvent::Interrupt), HostAction::Stop);
    assert_eq!(host.run_host(HostEvent::Connected), HostAction::Stop);
    let mut host = Host::new(HostArgs {}, vec![]);
    assert_eq!(host.run_host(HostEvent::EndpointClosed), HostAction::Stop);
}

#[test]
fn updates_of_a_host() {
    let services = vec![ServiceInfo { port: 4, cmd: "d".to_string() }];
    match update_step(UpdateEvent::Published(services.clone())) {
        UpdateAction::Encode(msg) => assert_eq!(msg, HostMsg::Services { services }),
        other => panic!("{:?}", other),
    }
    match update_step(UpdateEvent::Encoded("x".to_string())) {
        UpdateAction::Send(bytes) => assert_eq!(bytes, vec![0, 0, b'x', 10]),
        other => panic!("{:?}", other),
    }
    assert!(matches!(update_step(UpdateEvent::Sent), UpdateAction::Receive));
    assert!(matches!(update_step(UpdateEvent::Failed), UpdateAction::Stop));
}


#[test]
fn report_of_services() {
    let services = vec![
        ServiceInfo { port: 22, cmd: "sshd".to_string() },
        ServiceInfo { port: 3000, cmd: "node".to_string() },
    ];
    assert_eq!(
        service_report(&services),
        vec!["discovered 2 services:", "  22 (sshd)", "  3000 (node)"]
    );
    assert_eq!(service_report(&vec![]), vec!["discovered 0 services:"]);
}
