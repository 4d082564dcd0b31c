use dp_net::addr::{derive_ip, dst_ip, ip_of_hash, is_vnet_ip, net_ip, Ipv4};

#[test]
fn addresses_as_text() {
    for text in ["0.0.0.0", "100.64.0.1", "255.255.255.255", "1.20.30.200"] {
        assert_eq!(Ipv4::parse(text).unwrap().to_text(), text);
    }
    assert_eq!(Ipv4::parse("100.64.0.1"), Some(Ipv4::new(100, 64, 0, 1)));
    assert_eq!(Ipv4::new(100, 64, 0, 1).bits, 0x6440_0001);
    assert_eq!(net_ip(Ipv4 { bits: 0x0102_03ff }), (1, 2, 3, 255));
}

#[test]
fn texts_that_are_no_address() {
    let texts = [
        "", ".", "1", "1.2.3", "1.2.3.", "1.2.3.4.", "1.2.3.4.5", " 1.2.3.4", "1.2.3.4 ", "01.2.3.4",
        "1.02.3.4", "1.2.3.00", "256.1.1.1", "1.1.1.256", "1.1.1.1000", "+1.2.3.4", "1..2.3",
        "a.b.c.d", "1.2.3.x", "1.2.3.4x", "0000.0.0.0", "1,2,3,4", "١.2.3.4",
    ];
    for text in texts {
        assert_eq!(Ipv4::parse(text), None, "{:?}", text);
    }
}

#[test]
fn network_range() {
    assert!(is_vnet_ip(Ipv4::new(100, 64, 0, 0)));
    assert!(is_vnet_ip(Ipv4::new(100, 127, 255, 255)));
    assert!(!is_vnet_ip(Ipv4::new(100, 63, 255, 255)));
    assert!(!is_vnet_ip(Ipv4::new(100, 128, 0, 0)));
    assert!(!is_vnet_ip(Ipv4::new(10, 64, 0, 1)));
}

#[test]
fn address_of_a_hash() {
    assert_eq!(ip_of_hash(0), Ipv4::new(100, 64, 0, 0));
    assert_eq!(ip_of_hash(0xffff_ffff_ffff_ffff), Ipv4::new(100, 127, 255, 255));
    assert_eq!(ip_of_hash(0x1234_5678_9a40_0001), Ipv4::new(100, 64, 0, 1));
    assert_eq!(ip_of_hash(0xdead_beef_00c1_0203), Ipv4::new(100, 65, 2, 3));
    assert_eq!(ip_of_hash(0x40_0005), ip_of_hash(5));
    assert_ne!(ip_of_hash(0x20_0005), ip_of_hash(5));
}

#[test]
fn address_of_a_key() {
    for n in [0u8, 1, 77, 255] {
        let key = [n; 32];
        let ip = derive_ip(&key);
        assert!(is_vnet_ip(ip));
        assert_eq!(ip, ip_of_hash(xxhash_rust::xxh3::xxh3_64(&key)));
    }
    assert_ne!(derive_ip(&[0; 32]), derive_ip(&[1; 32]));
}

#[test]
fn destination_of_a_packet() {
    let mut packet = vec![0u8; 20];
    packet[0] = 0x45;
    packet[16] = 100;
    packet[17] = 64;
    packet[19] = 9;
    assert_eq!(dst_ip(&packet), Some(Ipv4::new(100, 64, 0, 9)));
    packet.push(1);
    assert_eq!(dst_ip(&packet), Some(Ipv4::new(100, 64, 0, 9)));
    packet[0] = 0x65;
    assert_eq!(dst_ip(&packet), None);
    packet[0] = 0x45;
    assert_eq!(dst_ip(&packet[..19]), None);
    assert_eq!(dst_ip(&[]), None);
}
