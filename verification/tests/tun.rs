use dp_net::addr::{Ipv4, IP_MASK};
use dp_net::tun::{linux_route_args, macos_route_args, NETMASK};

#[test]
fn netmask_of_the_network() {
    assert_eq!(Ipv4::new(NETMASK.0, NETMASK.1, NETMASK.2, NETMASK.3).bits, IP_MASK);
}

#[test]
fn route_commands() {
    assert_eq!(
        linux_route_args("utun5"),
        vec!["route", "add", "100.64.0.0/10", "dev", "utun5"]
    );
    assert_eq!(
        macos_route_args(Ipv4::new(100, 64, 0, 1)),
        vec!["add", "-net", "100.64.0.0", "100.64.0.1", "255.192.0.0"]
    );
}
