use dp_net::ports::{announces_port, first_ports, ActivePorts};
use dp_net::services::{parse_listing, Listing, ServiceInfo};

fn services(ports: &[u16]) -> Vec<ServiceInfo> {
    ports.iter().map(|p| ServiceInfo { port: *p, cmd: String::new() }).collect()
}

fn open(ports: &[u16]) -> ActivePorts<String> {
    let mut active = ActivePorts::new();
    for p in ports {
        assert_eq!(active.insert(*p, format!("h{}", p)), None);
    }
    active
}

fn drained(mut active: ActivePorts<String>) -> Vec<(u16, String)> {
    let mut all = active.drain();
    assert_eq!(active.drain(), vec![]);
    all.sort();
    all
}

#[test]
fn first_announcement_opens_every_service() {
    assert_eq!(first_ports(&Some(services(&[80, 22, 80]))), vec![80, 22, 80]);
    assert_eq!(first_ports(&Some(services(&[]))), Vec::<u16>::new());
}

#[test]
fn line_that_is_no_announcement_changes_nothing() {
    assert_eq!(first_ports(&None), Vec::<u16>::new());
    let mut active = open(&[1, 2]);
    let changes = active.take_line(&None);
    assert!(changes.removed.is_empty() && changes.added.is_empty());
    assert_eq!(drained(active), vec![(1, "h1".to_string()), (2, "h2".to_string())]);
}

#[test]
fn line_that_is_an_announcement_changes_ports() {
    let mut active = open(&[1, 2]);
    let changes = active.take_line(&Some(services(&[2, 3])));
    assert_eq!(changes.removed, vec![(1, "h1".to_string())]);
    assert_eq!(changes.added, vec![3]);
    assert_eq!(drained(active), vec![(2, "h2".to_string())]);
}

#[test]
fn announcement_closes_and_opens() {
    let mut active = open(&[22, 80, 443]);
    let mut changes = active.manage_ports(&services(&[443, 8080, 22, 8080, 9]));
    changes.removed.sort();
    changes.added.sort();
    assert_eq!(changes.removed, vec![(80, "h80".to_string())]);
    assert_eq!(changes.added, vec![9, 8080]);
    for p in changes.added {
        active.insert(p, format!("n{}", p));
    }
    assert_eq!(
        drained(active),
        vec![
            (9, "n9".to_string()),
            (22, "h22".to_string()),
            (443, "h443".to_string()),
            (8080, "n8080".to_string()),
        ]
    );
}

#[test]
fn repeated_announcement_changes_nothing() {
    let mut active = open(&[1, 2]);
    let changes = active.manage_ports(&services(&[2, 1]));
    assert!(changes.removed.is_empty() && changes.added.is_empty());
    assert_eq!(drained(active).len(), 2);
}

#[test]
fn empty_announcement_closes_everything() {
    let mut active = open(&[1, 2, 3]);
    let changes = active.manage_ports(&services(&[]));
    assert_eq!(changes.removed.len(), 3);
    assert!(changes.added.is_empty());
    assert_eq!(drained(active), vec![]);
}

#[test]
fn replaced_listener_comes_back() {
    let mut active = open(&[5]);
    assert_eq!(active.insert(5, "again".to_string()), Some("h5".to_string()));
    assert_eq!(drained(active), vec![(5, "again".to_string())]);
}

#[test]
fn announced_ports() {
    assert!(announces_port(&services(&[3, 4]), 4));
    assert!(!announces_port(&services(&[3, 4]), 5));
}

#[test]
fn open_ports_follow_what_the_host_finds() {
    let mut active: ActivePorts<String> = ActivePorts::new();
    for text in ["a b c *:80\na b c *:22\na b c *:80\n", "a b c *:443\na b c *:22\n", ""] {
        let catalog = parse_listing(Listing::Ss, text);
        for port in active.manage_ports(&catalog).added {
            active.insert(port, String::new());
        }
        let mut open: Vec<u16> = active.drain().into_iter().map(|(port, _)| port).collect();
        open.sort();
        let found: Vec<u16> = catalog.iter().map(|s| s.port).collect();
        assert_eq!(open, found);
        for port in open {
            active.insert(port, String::new());
        }
    }
}
