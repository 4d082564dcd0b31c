use dp_net::services::{
    add_service, discover_ports, parse_listing, parse_lsof_line, parse_ss_line, Listing,
    ServiceInfo,
};
use dp_net::text::chars_of;

fn service(port: u16, cmd: &str) -> ServiceInfo {
    ServiceInfo { port, cmd: cmd.to_string() }
}

fn ss(line: &str) -> Option<ServiceInfo> {
    parse_ss_line(&chars_of(line))
}

fn lsof(line: &str) -> Option<ServiceInfo> {
    parse_lsof_line(&chars_of(line))
}

#[test]
fn ss_lines() {
    assert_eq!(
        ss("LISTEN 0 128 *:3000 *:* users:((\"node\",pid=12,fd=3))"),
        Some(service(3000, "node"))
    );
    assert_eq!(
        ss("LISTEN 0 128 0.0.0.0:22 0.0.0.0:* users:((\"sshd\",pid=1,fd=3),(\"x\",pid=2,fd=4))"),
        Some(service(22, "sshd"))
    );
    assert_eq!(ss("LISTEN 0 128 *:80 *:*"), Some(service(80, "unknown")));
    assert_eq!(ss("LISTEN 0 128 *:80"), Some(service(80, "unknown")));
    assert_eq!(ss("LISTEN 0 128 127.0.0.1:80 *:*"), None);
    assert_eq!(ss("LISTEN 0 128 [::]:80 *:*"), None);
    assert_eq!(ss("LISTEN 0 128"), None);
    assert_eq!(ss(""), None);
    assert_eq!(ss("LISTEN 0 128 *:http *:*"), None);
    assert_eq!(ss("LISTEN 0 128 *:65536 *:*"), None);
    assert_eq!(ss("LISTEN 0 128 *:+81 *:*"), Some(service(81, "unknown")));
}

#[test]
fn ss_command_names() {
    assert_eq!(ss("a b c *:1 users:none"), Some(service(1, "unknown")));
    assert_eq!(ss("a b c *:1 users:((\"open"), Some(service(1, "open")));
    assert_eq!(ss("a b c *:1 users:((\"ab(\"cd\""), Some(service(1, "ab")));
    assert_eq!(ss("a b c *:1 users:((\"\",pid=1))"), Some(service(1, "")));
    assert_eq!(ss("users:(\"me\") b c *:1"), Some(service(1, "me")));
    assert_eq!(ss("a b c *:1 users: users:((\"late\"))"), Some(service(1, "unknown")));
}

#[test]
fn lsof_lines() {
    let line = "node 123 me 23u IPv4 0x1 0t0 TCP *:3000 (LISTEN)";
    assert_eq!(lsof(line), Some(service(3000, "node")));
    assert_eq!(
        lsof("post 1 me 7u IPv6 0x1 0t0 TCP [::1]:5432 (LISTEN)"),
        Some(service(5432, "post"))
    );
    assert_eq!(lsof("dns 1 me 7u IPv4 0x1 0t0 UDP *:53"), None);
    assert_eq!(lsof("x 1 me 7u IPv4 0x1 0t0 TCP *:http"), None);
    assert_eq!(lsof("x 1 me 7u IPv4 0x1 0t0 TCP 90"), Some(service(90, "x")));
    assert_eq!(lsof("x 1 me 7u IPv4 0x1 0t0 TCP"), None);
}

#[test]
fn catalog_is_sorted_and_keeps_the_first_of_a_port() {
    let text = "a b c *:3000 users:((\"two\"))\n\
                a b c 0.0.0.0:22 users:((\"sshd\"))\n\
                garbage\n\
                a b c *:3000 users:((\"three\"))\n\
                a b c *:80\r\n";
    let expected = vec![service(22, "sshd"), service(80, "unknown"), service(3000, "two")];
    assert_eq!(parse_listing(Listing::Ss, text), expected);
    assert_eq!(discover_ports(Listing::Ss, true, text.as_bytes()), expected);
}

#[test]
fn lsof_heading_is_skipped() {
    let row = "x 1 me 7u IPv4 0x1 0t0 TCP *:7 (LISTEN)";
    assert_eq!(parse_listing(Listing::Lsof, row), vec![]);
    assert_eq!(
        parse_listing(Listing::Lsof, &format!("COMMAND\n{}\n", row)),
        vec![service(7, "x")]
    );
    assert_eq!(parse_listing(Listing::Lsof, ""), vec![]);
}

#[test]
fn failed_program_lists_nothing() {
    assert_eq!(discover_ports(Listing::Ss, false, b"a b c *:80"), vec![]);
}

#[test]
fn bytes_that_are_no_text_are_replaced() {
    let mut bytes = b"a b c *:80 users:((\"".to_vec();
    bytes.push(0xff);
    bytes.extend_from_slice(b"\"))");
    assert_eq!(
        discover_ports(Listing::Ss, true, &bytes),
        vec![service(80, "\u{fffd}")]
    );
}

#[test]
fn adding_to_a_catalog() {
    let mut catalog = Vec::new();
    for (port, cmd) in [(5, "e"), (1, "a"), (9, "i"), (5, "late"), (3, "c")] {
        add_service(&mut catalog, service(port, cmd));
    }
    assert_eq!(
        catalog,
        vec![service(1, "a"), service(3, "c"), service(5, "e"), service(9, "i")]
    );
}

#[test]
fn catalog_made_again_is_the_same() {
    let text = "a b c *:9 users:((\"i\"))\na b c *:1\na b c *:9\n";
    let catalog = parse_listing(Listing::Ss, text);
    let mut again = Vec::new();
    for s in catalog.iter().rev() {
        add_service(&mut again, s.clone());
    }
    assert_eq!(again, catalog);
    for s in &catalog {
        add_service(&mut again, s.clone());
    }
    assert_eq!(again, catalog);
}
