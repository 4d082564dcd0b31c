//! The network device of a node: its netmask, and the commands that route the
//! virtual network through it.

use crate::addr::{
    denoted, denoted_is_dotted, dotted, from_octets, in_vnet, net_ip, octets, octets_round_trip,
    Ipv4, IP_MASK, IP_PREFIX,
};
use crate::text::{decimal, push_decimal, strings_view};
use vstd::prelude::*;
use vstd::string::*;

verus! {

/// The netmask of the virtual network.
pub const NETMASK: (u8, u8, u8, u8) = (255, 192, 0, 0);

/// The netmask selects the bits that all addresses of the network share.
pub proof fn netmask_selects_prefix(ip: Ipv4)
    ensures
        from_octets(NETMASK.0, NETMASK.1, NETMASK.2, NETMASK.3).bits == IP_MASK,
        in_vnet(ip) <==> ip.bits & IP_MASK == IP_PREFIX,
{
    let b = ip.bits;
    assert((b & 0xFFC0_0000 == 0x6440_0000) <==> (0x6440_0000 <= b && b < 0x6480_0000))
        by (bit_vector);
}

/// The arguments of `ip` that route the network through a device.
pub open spec fn linux_route(device: Seq<char>) -> Seq<Seq<char>> {
    seq!["route"@, "add"@, "100.64.0.0/10"@, "dev"@, device]
}

/// The arguments of `route` that route the network of an address through it:
/// the network is named by its first two octets.
pub open spec fn macos_route(ip: Ipv4) -> Seq<Seq<char>> {
    let (a, b, _, _) = octets(ip);
    seq![
        "add"@,
        "-net"@,
        decimal(a as nat) + "."@ + decimal(b as nat) + ".0.0"@,
        dotted(ip),
        "255.192.0.0"@,
    ]
}

/// The arguments of `ip` that route the network through a device.
pub fn linux_route_args(device: &str) -> (r: Vec<String>)
    ensures
        strings_view(r@) == linux_route(device@),
{
    let mut r: Vec<String> = Vec::new();
    r.push("route".to_string());
    r.push("add".to_string());
    r.push("100.64.0.0/10".to_string());
    r.push("dev".to_string());
    r.push(device.to_string());
    assert(strings_view(r@) =~= linux_route(device@));
    r
}

/// The arguments of `route` that route the network of an address through it.
pub fn macos_route_args(ip: Ipv4) -> (r: Vec<String>)
    ensures
        strings_view(r@) == macos_route(ip),
{
    let (a, b, _, _) = net_ip(ip);
    let mut net = String::new();
    push_decimal(&mut net, a as u64);
    net.append(".");
    push_decimal(&mut net, b as u64);
    net.append(".0.0");
    assert(net@ =~= decimal(a as nat) + "."@ + decimal(b as nat) + ".0.0"@);
    let mut r: Vec<String> = Vec::new();
    r.push("add".to_string());
    r.push("-net".to_string());
    r.push(net);
    r.push(ip.to_text());
    r.push("255.192.0.0".to_string());
    assert(strings_view(r@) =~= macos_route(ip));
    r
}

/// The network is routed to the device that is named.
pub proof fn linux_route_names_the_device(device: &str, r: Vec<String>)
    requires
        call_ensures(linux_route_args, (device,), r),
    ensures
        r@.len() == 5,
        r@[4]@ == device@,
        r@[2]@.len() == 13,
        denoted(r@[2]@.take(10)) == Some(Ipv4 { bits: IP_PREFIX }),
{
    let all = strings_view(r@);
    assert(all.len() == r@.len());
    assert(all[4] == r@[4]@ && all[2] == r@[2]@);
    reveal_strlit("100.64.0.0/10");
    let net = Ipv4 { bits: IP_PREFIX };
    assert(octets(net) == (100u8, 64u8, 0u8, 0u8));
    reveal_with_fuel(decimal, 4);
    assert(decimal(100) =~= seq!['1', '0', '0']);
    assert(decimal(64) =~= seq!['6', '4']);
    assert(decimal(0) =~= seq!['0']);
    assert("100.64.0.0/10"@.take(10) =~= dotted(net));
    denoted_is_dotted(dotted(net), net);
}

/// The network that is routed has the first two octets of the address and zeros, it is
/// routed through that address, and the mask is that of the virtual network.
pub proof fn macos_route_names_the_address(ip: Ipv4, r: Vec<String>)
    requires
        call_ensures(macos_route_args, (ip,), r),
    ensures
        r@.len() == 5,
        denoted(r@[2]@) == Some(from_octets(octets(ip).0, octets(ip).1, 0, 0)),
        denoted(r@[3]@) == Some(ip),
        denoted(r@[4]@) == Some(Ipv4 { bits: IP_MASK }),
{
    let all = strings_view(r@);
    assert(all.len() == r@.len());
    assert(all[2] == r@[2]@ && all[3] == r@[3]@ && all[4] == r@[4]@);
    reveal_strlit(".");
    reveal_strlit(".0.0");
    reveal_strlit("255.192.0.0");
    let (a, b, _, _) = octets(ip);
    let net = from_octets(a, b, 0, 0);
    octets_round_trip(net, a, b, 0, 0);
    reveal_with_fuel(decimal, 4);
    assert(decimal(0) =~= seq!['0']);
    assert(r@[2]@ =~= dotted(net));
    denoted_is_dotted(r@[2]@, net);
    denoted_is_dotted(r@[3]@, ip);
    let mask = Ipv4 { bits: IP_MASK };
    assert(octets(mask) == (255u8, 192u8, 0u8, 0u8));
    assert(decimal(255) =~= seq!['2', '5', '5']);
    assert(decimal(192) =~= seq!['1', '9', '2']);
    assert("255.192.0.0"@ =~= dotted(mask));
    denoted_is_dotted(r@[4]@, mask);
}

} // verus!
