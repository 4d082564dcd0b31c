use dp_net::services::ServiceInfo;
use dp_net::watch::{copy_services, same_services, PortWatcher};

fn one(port: u16, cmd: &str) -> Vec<ServiceInfo> {
    vec![ServiceInfo { port, cmd: cmd.to_string() }]
}

#[test]
fn only_changes_are_published() {
    let mut w = PortWatcher::new();
    assert_eq!(w.port_watcher(Some(vec![])), None);
    assert_eq!(w.port_watcher(Some(one(1, "a"))), Some(one(1, "a")));
    assert_eq!(w.port_watcher(Some(one(1, "a"))), None);
    assert_eq!(w.port_watcher(None), None);
    assert_eq!(w.port_watcher(Some(one(1, "a"))), None);
    assert_eq!(w.port_watcher(Some(one(1, "b"))), Some(one(1, "b")));
    assert_eq!(w.port_watcher(Some(one(2, "b"))), Some(one(2, "b")));
    assert_eq!(w.port_watcher(Some(vec![])), Some(vec![]));
}

#[test]
fn lists_of_services_are_compared_entry_by_entry() {
    let mut two = one(1, "a");
    two.extend(one(2, "b"));
    assert!(same_services(&two, &copy_services(&two)));
    assert!(!same_services(&two, &one(1, "a")));
    assert!(!same_services(&one(1, "a"), &one(1, "b")));
    assert!(!same_services(&one(1, "a"), &one(2, "a")));
    assert_eq!(copy_services(&two), two);
}
