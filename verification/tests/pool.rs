use dp_net::addr::Ipv4;
use dp_net::pool::{peer_list, PeerPool};
use dp_net::vnet::{PeerInfo, VnetMsg};

fn ip(last: u8) -> Ipv4 {
    Ipv4::new(100, 64, 0, last)
}

fn addresses(pool: &PeerPool<&'static str>) -> Vec<String> {
    let mut list: Vec<String> = pool.list_peers().into_iter().map(|p| p.ip).collect();
    list.sort();
    list
}

#[test]
fn peers_are_found_by_address() {
    let mut pool = PeerPool::new();
    assert_eq!(pool.get_send(ip(1), 0), None);
    pool.insert(ip(1), "one", 0);
    pool.insert(ip(2), "two", 0);
    assert_eq!(pool.get_send(ip(1), 5), Some("one"));
    assert_eq!(pool.get_send(ip(2), 5), Some("two"));
    pool.insert(ip(1), "new", 6);
    assert_eq!(pool.get_send(ip(1), 7), Some("new"));
    assert_eq!(addresses(&pool), vec!["100.64.0.1", "100.64.0.2"]);
}

#[test]
fn announced_peers_are_known_by_address() {
    let mut pool = PeerPool::new();
    assert_eq!(pool.list_peers(), vec![]);
    pool.insert(ip(7), "x", 0);
    assert_eq!(
        pool.list_peers(),
        vec![PeerInfo {
            ip: "100.64.0.7".to_string(),
            pubkey: String::new(),
            ticket: String::new(),
        }]
    );
}

#[test]
fn idle_peers_are_dropped() {
    let mut pool = PeerPool::new();
    pool.insert(ip(1), "one", 100);
    pool.insert(ip(2), "two", 200);
    pool.insert(ip(3), "three", 500);
    assert_eq!(pool.cleanup(300, 399), vec![]);
    assert_eq!(pool.cleanup(300, 400), vec![ip(1)]);
    assert_eq!(addresses(&pool), vec!["100.64.0.2", "100.64.0.3"]);
    assert_eq!(pool.cleanup(300, 400), vec![]);
}

#[test]
fn used_peer_is_kept() {
    let mut pool = PeerPool::new();
    pool.insert(ip(1), "one", 0);
    pool.insert(ip(2), "two", 0);
    assert_eq!(pool.get_send(ip(1), 250), Some("one"));
    assert_eq!(pool.cleanup(300, 300), vec![ip(2)]);
    assert_eq!(pool.get_send(ip(1), 300), Some("one"));
    assert_eq!(pool.get_send(ip(2), 300), None);
}

#[test]
fn no_idle_time_and_a_clock_that_stands_still() {
    let mut pool = PeerPool::new();
    pool.insert(ip(1), "one", 10);
    assert_eq!(pool.cleanup(1, 3), vec![]);
    assert_eq!(pool.cleanup(0, 3), vec![ip(1)]);
    assert_eq!(pool.list_peers(), vec![]);
}

#[test]
fn answer_names_the_node_and_its_peers() {
    let mut pool = PeerPool::new();
    pool.insert(ip(7), "x", 0);
    assert_eq!(
        peer_list(&pool, ip(1)),
        VnetMsg::PeerList { ip: Some("100.64.0.1".to_string()), peers: pool.list_peers() }
    );
    assert_eq!(pool.list_peers().len(), 1);
}
