//! IPv4 addresses, and those of the virtual network: 100.64.0.0/10.

use crate::text::{
    all_digits, chars_of, decimal, decimal_of_value, decimal_properties, digit, find, find_unique,
    is_digit, parse_digits, push_decimal, value,
};
use vstd::prelude::*;
use vstd::slice::slice_subrange;

verus! {

/// The address bits that all addresses of the virtual network share.
pub const IP_PREFIX: u32 = 0x6440_0000;

/// Which bits of an address [`IP_PREFIX`] fixes.
pub const IP_MASK: u32 = 0xFFC0_0000;

/// An IPv4 address, the first octet in the most significant bits.
#[derive(Debug, Clone, Copy, PartialEq, Eq, Hash, Structural)]
pub struct Ipv4 {
    pub bits: u32,
}

/// The address that four octets form.
pub open spec fn from_octets(a: u8, b: u8, c: u8, d: u8) -> Ipv4 {
    Ipv4 { bits: (a * 0x100_0000 + b * 0x1_0000 + c * 0x100 + d) as u32 }
}

/// The octets of an address in order.
pub open spec fn octets(ip: Ipv4) -> (u8, u8, u8, u8) {
    (
        (ip.bits / 0x100_0000) as u8,
        (ip.bits / 0x1_0000 % 0x100) as u8,
        (ip.bits / 0x100 % 0x100) as u8,
        (ip.bits % 0x100) as u8,
    )
}

/// The dotted decimal form of an address.
pub open spec fn dotted(ip: Ipv4) -> Seq<char> {
    let (a, b, c, d) = octets(ip);
    decimal(a as nat) + seq!['.'] + decimal(b as nat) + seq!['.'] + decimal(c as nat) + seq!['.']
        + decimal(d as nat)
}

/// The address whose dotted decimal form a text is. No other text denotes an
/// address: not one with leading zeros, white space or a missing octet.
pub open spec fn denoted(text: Seq<char>) -> Option<Ipv4> {
    if exists|ip: Ipv4| text == #[trigger] dotted(ip) {
        Some(choose|ip: Ipv4| text == #[trigger] dotted(ip))
    } else {
        None
    }
}

/// Whether an address belongs to the virtual network.
pub open spec fn in_vnet(ip: Ipv4) -> bool {
    IP_PREFIX <= ip.bits < 0x6480_0000
}

/// The address in the virtual network that a hash stands for: its lowest 22
/// bits number the host.
pub open spec fn hashed_ip(hash: u64) -> Ipv4 {
    Ipv4 { bits: (IP_PREFIX + hash % 0x40_0000) as u32 }
}

/// The destination of an IPv4 packet; nothing where the bytes are too short for
/// a header or are of another version.
pub open spec fn packet_destination(packet: Seq<u8>) -> Option<Ipv4> {
    if packet.len() < 20 || packet[0] / 16 != 4 {
        None
    } else {
        Some(from_octets(packet[16], packet[17], packet[18], packet[19]))
    }
}

/// The xxh3 hash of some bytes, 64 bits wide and with the default secret.
pub uninterp spec fn xxh3(bytes: Seq<u8>) -> u64;

/// Calls `xxhash_rust::xxh3::xxh3_64`. Claims that the hash depends on the bytes
/// alone.
#[verifier::external_body]
fn xxh3_64(bytes: &[u8]) -> (r: u64)
    ensures
        r == xxh3(bytes@),
{
    xxhash_rust::xxh3::xxh3_64(bytes)
}

/// An address is what its octets form, and they are its octets.
pub proof fn octets_round_trip(ip: Ipv4, a: u8, b: u8, c: u8, d: u8)
    ensures
        octets(from_octets(a, b, c, d)) == (a, b, c, d),
        ({
            let (p, q, r, s) = octets(ip);
            from_octets(p, q, r, s) == ip
        }),
{
    let v = from_octets(a, b, c, d).bits;
    assert(v / 0x100_0000 == a && v / 0x1_0000 % 0x100 == b && v / 0x100 % 0x100 == c && v % 0x100
        == d) by (bit_vector)
        requires
            v == a * 0x100_0000 + b * 0x1_0000 + c * 0x100 + d,
    ;
    let w = ip.bits;
    assert(w / 0x100_0000 < 0x100 && w == w / 0x100_0000 * 0x100_0000 + w / 0x1_0000 % 0x100
        * 0x1_0000 + w / 0x100 % 0x100 * 0x100 + w % 0x100) by (bit_vector);
}

/// An address belongs to the virtual network exactly when its first octet is 100
/// and its second lies between 64 and 127.
pub proof fn vnet_octets(ip: Ipv4)
    ensures
        in_vnet(ip) <==> octets(ip).0 == 100 && 64 <= octets(ip).1 <= 127,
{
    let b = ip.bits;
    assert(b / 0x100_0000 < 256);
    assert(b / 0x1_0000 == (b / 0x100_0000) * 0x100 + b / 0x1_0000 % 0x100);
}

/// The address that a hash stands for belongs to the virtual network.
pub proof fn hashed_ip_in_vnet(hash: u64)
    ensures
        in_vnet(hashed_ip(hash)),
{
}

/// Two hashes with the same lowest 22 bits stand for one address, others for
/// two.
pub proof fn hashed_ip_distinguishes(h1: u64, h2: u64)
    ensures
        hashed_ip(h1) == hashed_ip(h2) <==> h1 % 0x40_0000 == h2 % 0x40_0000,
{
}

/// The position where the digits that begin at `at` end is determined by the
/// text, so a decimal number that ends there is too.
proof fn decimal_at_unique(s: Seq<char>, at: int, m: nat, e: int, n: nat, f: int)
    requires
        0 <= at <= e <= s.len(),
        at <= f <= s.len(),
        s.subrange(at, e) == decimal(m),
        s.subrange(at, f) == decimal(n),
        e == s.len() || !digit(s[e]),
        f == s.len() || !digit(s[f]),
    ensures
        m == n,
        e == f,
{
    decimal_properties(m);
    decimal_properties(n);
    if e < f {
        assert(digit(s.subrange(at, f)[e - at]));
    } else if f < e {
        assert(digit(s.subrange(at, e)[f - at]));
    }
}

/// Whether an octet in decimal stands at `at` and the digits end behind it.
spec fn octet_at(s: Seq<char>, at: int, n: u8, end: int) -> bool {
    &&& at <= end <= s.len()
    &&& s.subrange(at, end) == decimal(n as nat)
    &&& end == s.len() || !digit(s[end])
}

/// The octet that stands at a position, and where it ends.
fn read_octet(s: &[char], at: usize) -> (r: Option<(u8, usize)>)
    requires
        at <= s@.len(),
    ensures
        match r {
            Some((n, end)) => octet_at(s@, at as int, n, end as int),
            None => forall|n: u8, end: int| !octet_at(s@, at as int, n, end),
        },
{
    let mut end: usize = at;
    while end < s.len() && is_digit(s[end])
        invariant
            at <= end <= s@.len(),
            forall|i: int| at <= i < end ==> digit(#[trigger] s@[i]),
        decreases s@.len() - end,
    {
        end += 1;
    }
    let run = slice_subrange(s, at, end);
    proof {
        assert forall|n: u8, e: int| octet_at(s@, at as int, n, e) implies run@ == decimal(
            n as nat,
        ) by {
            let t = s@.subrange(at as int, e);
            decimal_properties(n as nat);
            if e < end {
                assert(digit(s@[e]));
            } else if end < e {
                assert(digit(t[end - at]));
            }
        }
        assert forall|n: u8| run@ == decimal(n as nat) implies all_digits(run@) && value(run@) == n
            && (run@.len() > 1 ==> run@[0] != '0') by {
            decimal_properties(n as nat);
        }
    }
    if run.len() > 1 && run[0] == '0' {
        return None;
    }
    match parse_digits(run, 255) {
        Some(n) => {
            proof {
                decimal_of_value(run@);
            }
            Some((n as u8, end))
        },
        None => None,
    }
}

/// The octet of an address with a number from 0 to 3.
spec fn octet(ip: Ipv4, k: int) -> u8 {
    let (a, b, c, d) = octets(ip);
    if k == 0 {
        a
    } else if k == 1 {
        b
    } else if k == 2 {
        c
    } else {
        d
    }
}

/// The dotted decimal form of an address from one of its octets on.
spec fn dotted_from(ip: Ipv4, k: int) -> Seq<char>
    decreases 3 - k,
{
    if k >= 3 {
        decimal(octet(ip, k) as nat)
    } else {
        decimal(octet(ip, k) as nat) + seq!['.'] + dotted_from(ip, k + 1)
    }
}

/// Whether the text from a position on is the dotted decimal form of an address
/// from one of its octets on.
#[verifier::opaque]
spec fn stands_at(s: Seq<char>, at: int, ip: Ipv4, k: int) -> bool {
    s.skip(at) == dotted_from(ip, k)
}

/// The dotted decimal form is that from the first octet on.
proof fn stands_at_start(s: Seq<char>, ip: Ipv4)
    ensures
        s == dotted(ip) <==> stands_at(s, 0, ip, 0),
{
    reveal(stands_at);
    reveal_with_fuel(dotted_from, 4);
    assert(s.skip(0) =~= s);
    assert(dotted(ip) =~= dotted_from(ip, 0));
}

/// Where the octets of an address from one on stand, that octet stands.
proof fn octet_stands(s: Seq<char>, at: int, ip: Ipv4, k: int)
    requires
        0 <= at <= s.len(),
        0 <= k <= 3,
        stands_at(s, at, ip, k),
    ensures
        ({
            let n = octet(ip, k);
            let end = at + decimal(n as nat).len();
            &&& octet_at(s, at, n, end)
            &&& k < 3 ==> end < s.len() && s[end] == '.' && stands_at(s, end + 1, ip, k + 1)
            &&& k == 3 ==> end == s.len()
        }),
{
    reveal(stands_at);
    let n = octet(ip, k);
    let t = s.skip(at);
    let end = at + decimal(n as nat).len();
    assert(t == dotted_from(ip, k));
    assert(end - at <= t.len());
    assert(s.subrange(at, end) =~= decimal(n as nat)) by {
        assert(t.take(end - at) =~= decimal(n as nat));
        assert(s.subrange(at, end) =~= t.take(end - at));
    }
    if k < 3 {
        assert(t[end - at] == '.');
        assert(s.skip(end + 1) =~= t.skip(end + 1 - at));
        assert(t.skip(end + 1 - at) =~= dotted_from(ip, k + 1));
    }
}

/// Where an octet stands, it is that of each address whose octets stand there,
/// and the next ones follow behind a dot.
proof fn next_octet(s: Seq<char>, at: int, k: int, n: u8, end: int)
    requires
        0 <= at <= s.len(),
        0 <= k < 3,
        octet_at(s, at, n, end),
    ensures
        forall|ip: Ipv4|
            #![trigger stands_at(s, at, ip, k)]
            stands_at(s, at, ip, k) <==> octet(ip, k) == n && end < s.len() && s[end] == '.'
                && stands_at(s, end + 1, ip, k + 1),
{
    assert forall|ip: Ipv4|
        #![trigger stands_at(s, at, ip, k)]
        stands_at(s, at, ip, k) <==> octet(ip, k) == n && end < s.len() && s[end] == '.'
            && stands_at(s, end + 1, ip, k + 1) by {
        let m = octet(ip, k);
        if stands_at(s, at, ip, k) {
            octet_stands(s, at, ip, k);
            let e = at + decimal(m as nat).len();
            decimal_at_unique(s, at, m as nat, e, n as nat, end);
        } else if m == n && end < s.len() && s[end] == '.' && stands_at(s, end + 1, ip, k + 1) {
            reveal(stands_at);
            assert(s.skip(at) =~= s.subrange(at, end) + seq!['.'] + s.skip(end + 1));
        }
    }
}

/// The last octet of an address stands at the end of the text.
proof fn last_octet(s: Seq<char>, at: int, n: u8, end: int)
    requires
        0 <= at <= s.len(),
        octet_at(s, at, n, end),
    ensures
        forall|ip: Ipv4|
            #![trigger stands_at(s, at, ip, 3)]
            stands_at(s, at, ip, 3) <==> octet(ip, 3) == n && end == s.len(),
{
    assert forall|ip: Ipv4|
        #![trigger stands_at(s, at, ip, 3)]
        stands_at(s, at, ip, 3) <==> octet(ip, 3) == n && end == s.len() by {
        let m = octet(ip, 3);
        if stands_at(s, at, ip, 3) {
            octet_stands(s, at, ip, 3);
            decimal_at_unique(s, at, m as nat, s.len() as int, n as nat, end);
        } else if m == n && end == s.len() {
            reveal(stands_at);
            assert(s.skip(at) =~= s.subrange(at, end));
        }
    }
}

/// Where no octet stands, those of no address do.
proof fn no_octet(s: Seq<char>, at: int, k: int)
    requires
        0 <= at <= s.len(),
        0 <= k <= 3,
        forall|n: u8, end: int| !octet_at(s, at, n, end),
    ensures
        forall|ip: Ipv4| !#[trigger] stands_at(s, at, ip, k),
{
    assert forall|ip: Ipv4| !#[trigger] stands_at(s, at, ip, k) by {
        if stands_at(s, at, ip, k) {
            octet_stands(s, at, ip, k);
        }
    }
}

impl Ipv4 {
    /// The address that four octets form.
    pub fn new(a: u8, b: u8, c: u8, d: u8) -> (r: Ipv4)
        ensures
            r == from_octets(a, b, c, d),
    {
        Ipv4 {
            bits: a as u32 * 0x100_0000 + b as u32 * 0x1_0000 + c as u32 * 0x100 + d as u32,
        }
    }

    /// The dotted decimal form.
    pub fn to_text(&self) -> (r: String)
        ensures
            r@ == dotted(*self),
    {
        let (a, b, c, d) = net_ip(*self);
        let mut out = String::new();
        push_decimal(&mut out, a as u64);
        out.push('.');
        push_decimal(&mut out, b as u64);
        out.push('.');
        push_decimal(&mut out, c as u64);
        out.push('.');
        push_decimal(&mut out, d as u64);
        assert(out@ =~= dotted(*self));
        out
    }

    /// The address that a text denotes.
    pub fn parse(text: &str) -> (r: Option<Ipv4>)
        ensures
            r == denoted(text@),
    {
        let s = chars_of(text);
        let r = parse_chars(&s);
        proof {
            assert forall|ip: Ipv4| text@ == #[trigger] dotted(ip) <==> stands_at(text@, 0, ip, 0) by {
                stands_at_start(text@, ip);
            }
            if let Some(ip) = r {
                assert(text@ == dotted(ip));
            }
        }
        r
    }
}

/// The octets of an address in order.
pub fn net_ip(ip: Ipv4) -> (r: (u8, u8, u8, u8))
    ensures
        r == octets(ip),
{
    (
        (ip.bits / 0x100_0000) as u8,
        (ip.bits / 0x1_0000 % 0x100) as u8,
        (ip.bits / 0x100 % 0x100) as u8,
        (ip.bits % 0x100) as u8,
    )
}

/// Whether an address belongs to the virtual network.
pub fn is_vnet_ip(ip: Ipv4) -> (r: bool)
    ensures
        r == in_vnet(ip),
{
    let b = ip.bits;
    assert((b & 0xFFC0_0000 == 0x6440_0000) <==> (0x6440_0000 <= b && b < 0x6480_0000))
        by (bit_vector);
    (b & IP_MASK) == IP_PREFIX
}

/// Reads the octet with a number up to 2 and the dot behind it: the octet, and
/// where the next one is to stand.
fn read_part(s: &[char], at: usize, Ghost(k): Ghost<int>) -> (r: Option<(u8, usize)>)
    requires
        at <= s@.len(),
        0 <= k < 3,
    ensures
        match r {
            Some((n, next)) => next <= s@.len() && forall|ip: Ipv4|
                #![trigger stands_at(s@, at as int, ip, k)]
                stands_at(s@, at as int, ip, k) <==> octet(ip, k) == n && stands_at(
                    s@,
                    next as int,
                    ip,
                    k + 1,
                ),
            None => forall|ip: Ipv4| !#[trigger] stands_at(s@, at as int, ip, k),
        },
{
    match read_octet(s, at) {
        Some((n, end)) => {
            proof {
                next_octet(s@, at as int, k, n, end as int);
            }
            if end < s.len() && s[end] == '.' {
                Some((n, end + 1))
            } else {
                None
            }
        },
        None => {
            proof {
                no_octet(s@, at as int, k);
            }
            None
        },
    }
}

/// The address whose dotted decimal form is given.
fn parse_chars(s: &[char]) -> (r: Option<Ipv4>)
    ensures
        match r {
            Some(ip) => forall|x: Ipv4| stands_at(s@, 0, x, 0) <==> x == ip,
            None => forall|x: Ipv4| !#[trigger] stands_at(s@, 0, x, 0),
        },
{
    let (a, p1) = match read_part(s, 0, Ghost(0)) {
        Some(x) => x,
        None => return None,
    };
    let (b, p2) = match read_part(s, p1, Ghost(1)) {
        Some(x) => x,
        None => return None,
    };
    let (c, p3) = match read_part(s, p2, Ghost(2)) {
        Some(x) => x,
        None => return None,
    };
    match read_octet(s, p3) {
        Some((d, end)) => {
            proof {
                last_octet(s@, p3 as int, d, end as int);
            }
            if end != s.len() {
                return None;
            }
            let ip = Ipv4::new(a, b, c, d);
            proof {
                octets_round_trip(ip, a, b, c, d);
                assert forall|x: Ipv4| stands_at(s@, 0, x, 0) <==> x == ip by {
                    octets_round_trip(x, a, b, c, d);
                    assert(stands_at(s@, p3 as int, x, 3) <==> octet(x, 3) == d);
                    assert(stands_at(s@, p2 as int, x, 2) <==> octet(x, 2) == c && stands_at(
                        s@,
                        p3 as int,
                        x,
                        3,
                    ));
                    assert(stands_at(s@, p1 as int, x, 1) <==> octet(x, 1) == b && stands_at(
                        s@,
                        p2 as int,
                        x,
                        2,
                    ));
                }
            }
            Some(ip)
        },
        None => {
            proof {
                no_octet(s@, p3 as int, 3);
            }
            None
        },
    }
}

/// The dotted form of an address denotes that address.
pub proof fn address_survives_text(ip: Ipv4)
    ensures
        denoted(dotted(ip)) == Some(ip),
{
    let text = dotted(ip);
    let other = choose|x: Ipv4| text == #[trigger] dotted(x);
    dotted_injective(ip, other);
}

/// The dotted form of an address denotes no other address.
proof fn dotted_injective(x: Ipv4, y: Ipv4)
    requires
        dotted(x) == dotted(y),
    ensures
        x == y,
{
    let s = dotted(x);
    stands_at_start(s, x);
    stands_at_start(s, y);
    let e0 = decimal(octet(x, 0) as nat).len() as int;
    let e1 = e0 + 1 + decimal(octet(x, 1) as nat).len();
    let e2 = e1 + 1 + decimal(octet(x, 2) as nat).len();
    octet_stands(s, 0, x, 0);
    next_octet(s, 0, 0, octet(x, 0), e0);
    octet_stands(s, e0 + 1, x, 1);
    next_octet(s, e0 + 1, 1, octet(x, 1), e1);
    octet_stands(s, e1 + 1, x, 2);
    next_octet(s, e1 + 1, 2, octet(x, 2), e2);
    octet_stands(s, e2 + 1, x, 3);
    last_octet(s, e2 + 1, octet(x, 3), s.len() as int);
    octets_round_trip(x, 0, 0, 0, 0);
    octets_round_trip(y, 0, 0, 0, 0);
}

/// The address in the virtual network that a hash stands for.
pub fn ip_of_hash(hash: u64) -> (r: Ipv4)
    ensures
        r == hashed_ip(hash),
{
    let low = (hash & 0xffff_ffff) as u32;
    let host = low & 0x003F_FFFF;
    assert(((hash & 0xffff_ffff) as u32) & 0x003F_FFFF == hash % 0x40_0000) by (bit_vector);
    assert(0x6440_0000u32 | host == 0x6440_0000u32 + host) by (bit_vector)
        requires
            host < 0x40_0000,
    ;
    Ipv4 { bits: IP_PREFIX | host }
}

/// The address of the endpoint with a public key: the one that the hash of its
/// bytes stands for.
pub fn derive_ip(pubkey: &[u8; 32]) -> (r: Ipv4)
    ensures
        r == hashed_ip(xxh3(pubkey@)),
{
    ip_of_hash(xxh3_64(pubkey.as_slice()))
}

/// The destination of an IPv4 packet.
pub fn dst_ip(packet: &[u8]) -> (r: Option<Ipv4>)
    ensures
        r == packet_destination(packet@),
{
    if packet.len() < 20 {
        return None;
    }
    let first = packet[0];
    assert(first >> 4 == first / 16) by (bit_vector);
    if (first >> 4) != 4 {
        return None;
    }
    Some(Ipv4::new(packet[16], packet[17], packet[18], packet[19]))
}

/// The octets of an address are its digits in base 256, the first worth most.
pub proof fn octet_weights(a: u8, b: u8, c: u8, d: u8, ip: Ipv4, made: Ipv4, read: (u8, u8, u8, u8))
    requires
        call_ensures(Ipv4::new, (a, b, c, d), made),
        call_ensures(net_ip, (ip,), read),
    ensures
        made.bits == ((a * 256 + b) * 256 + c) * 256 + d,
        ip.bits == ((read.0 * 256 + read.1) * 256 + read.2) * 256 + read.3,
        read == octets(ip),
        octets(made) == (a, b, c, d),
{
    octets_round_trip(ip, a, b, c, d);
}

/// The destination of a packet is what its bytes 16 to 19 name, in this order, and
/// no other byte has a part in it but the first, which tells the version. There is
/// one exactly where the bytes hold a header of version 4.
pub proof fn destination_is_in_the_header(packet: &[u8], r: Option<Ipv4>)
    requires
        call_ensures(dst_ip, (packet,), r),
    ensures
        r == packet_destination(packet@),
        r is Some <==> packet@.len() >= 20 && packet@[0] / 16 == 4,
        r matches Some(ip) ==> octets(ip) == (
            packet@[16],
            packet@[17],
            packet@[18],
            packet@[19],
        ),
{
    if r is Some {
        octets_round_trip(r->0, packet@[16], packet@[17], packet@[18], packet@[19]);
    }
}

/// The same of the packets in contracts.
pub proof fn destination_octets(packet: Seq<u8>)
    ensures
        packet_destination(packet) is Some <==> packet.len() >= 20 && packet[0] / 16 == 4,
        packet_destination(packet) matches Some(ip) ==> octets(ip) == (
            packet[16],
            packet[17],
            packet[18],
            packet[19],
        ),
{
    octets_round_trip(Ipv4 { bits: 0 }, packet[16], packet[17], packet[18], packet[19]);
}

/// The addresses of the virtual network are those from 100.64.0.0 to
/// 100.127.255.255.
pub proof fn network_range(ip: Ipv4, r: bool)
    requires
        call_ensures(is_vnet_ip, (ip,), r),
    ensures
        r == in_vnet(ip),
        r <==> octets(ip).0 == 100 && 64 <= octets(ip).1 < 128,
{
    vnet_octets(ip);
}

/// The lowest 22 bits of a hash are those of its address, and the others are those
/// of the network.
pub proof fn hash_numbers_the_host(hash: u64, r: Ipv4)
    requires
        call_ensures(ip_of_hash, (hash,), r),
    ensures
        r == hashed_ip(hash),
        r.bits % 0x40_0000 == hash % 0x40_0000,
        octets(r).0 == 100,
        64 <= octets(r).1 < 128,
{
    assert(0x6440_0000int % 0x40_0000 == 0);
    vnet_octets(r);
}

/// The address of a key has the lowest 22 bits of its hash, and lies in the network.
pub proof fn key_numbers_the_host(pubkey: [u8; 32], r: Ipv4)
    requires
        call_ensures(derive_ip, (&pubkey,), r),
    ensures
        r.bits % 0x40_0000 == xxh3(pubkey@) % 0x40_0000,
        octets(r).0 == 100,
        64 <= octets(r).1 < 128,
{
    assert(0x6440_0000int % 0x40_0000 == 0);
    vnet_octets(r);
}

/// What stands before the first dot behind a number, and what behind it.
proof fn part_before_dot(n: nat, rest: Seq<char>)
    ensures
        ({
            let s = decimal(n) + seq!['.'] + rest;
            let k = find(s, '.') as int;
            &&& s.take(k) == decimal(n)
            &&& k < s.len()
            &&& s.skip(k + 1) == rest
        }),
{
    let s = decimal(n) + seq!['.'] + rest;
    let k = decimal(n).len() as int;
    decimal_properties(n);
    assert forall|i: int| 0 <= i < k implies s[i] != '.' by {
        assert(digit(decimal(n)[i]));
    }
    find_unique(s, '.', k);
    assert(s.take(k) =~= decimal(n));
    assert(s.skip(k + 1) =~= rest);
}

/// Whether a text is a decimal number without needless zeros.
pub open spec fn denotes(s: Seq<char>, n: u8) -> bool {
    all_digits(s) && value(s) == n && (s.len() > 1 ==> s[0] != '0')
}

/// The dotted form of an address is its octets in decimal, in order, with a dot
/// between each two.
pub proof fn dotted_parts(ip: Ipv4)
    ensures
        ({
            let s0 = dotted(ip);
            let k0 = find(s0, '.') as int;
            let s1 = s0.skip(k0 + 1);
            let k1 = find(s1, '.') as int;
            let s2 = s1.skip(k1 + 1);
            let k2 = find(s2, '.') as int;
            let s3 = s2.skip(k2 + 1);
            &&& k0 < s0.len() && k1 < s1.len() && k2 < s2.len()
            &&& denotes(s0.take(k0), octets(ip).0)
            &&& denotes(s1.take(k1), octets(ip).1)
            &&& denotes(s2.take(k2), octets(ip).2)
            &&& denotes(s3, octets(ip).3)
        }),
{
    let (a, b, c, d) = octets(ip);
    let s3 = decimal(d as nat);
    let s2 = decimal(c as nat) + seq!['.'] + s3;
    let s1 = decimal(b as nat) + seq!['.'] + s2;
    let s0 = decimal(a as nat) + seq!['.'] + s1;
    assert(dotted(ip) =~= s0);
    part_before_dot(a as nat, s1);
    part_before_dot(b as nat, s2);
    part_before_dot(c as nat, s3);
    decimal_properties(a as nat);
    decimal_properties(b as nat);
    decimal_properties(c as nat);
    decimal_properties(d as nat);
}

/// A text denotes an address exactly when it is the dotted form of that address.
pub proof fn denoted_is_dotted(text: Seq<char>, ip: Ipv4)
    ensures
        denoted(text) == Some(ip) <==> text == dotted(ip),
{
    address_survives_text(ip);
    if let Some(x) = denoted(text) {
        assert(text == dotted(x));
    }
}

/// A text denotes an address exactly when it is its dotted form, and the address
/// that was written is read back.
pub proof fn address_is_read_back(ip: Ipv4, text: String, back: &str, r: Option<Ipv4>)
    requires
        call_ensures(Ipv4::to_text, (&ip,), text),
        call_ensures(Ipv4::parse, (back,), r),
    ensures
        text@ == dotted(ip),
        r == denoted(back@),
        r == Some(ip) <==> back@ == dotted(ip),
        r is None <==> forall|x: Ipv4| back@ != #[trigger] dotted(x),
{
    address_survives_text(ip);
    if let Some(x) = r {
        assert(back@ == dotted(x));
        address_survives_text(x);
    }
}

} // verus!
