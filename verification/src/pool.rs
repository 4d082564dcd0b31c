//! The peers that a node is connected to, by address, with the time at which
//! each was last sent to.

use crate::addr::{address_survives_text, dotted, Ipv4};
use crate::maps::{extended, key_list, lists_keys, pushed};
use crate::vnet::{known_by_address, peers_view, PeerInfo, PeerView, VnetMsg};
use std::collections::HashMap;
use vstd::prelude::*;

verus! {

broadcast use vstd::std_specs::hash::group_hash_axioms;

/// A connected peer: the handle to send by, and the time of its last use in
/// nanoseconds on a clock that never runs backwards.
#[derive(Debug)]
pub struct PeerConn<H> {
    pub send: H,
    pub last_used: u64,
}

/// The connected peers.
#[derive(Debug)]
pub struct PeerPool<H> {
    peers: HashMap<u32, PeerConn<H>>,
}

impl<H> View for PeerPool<H> {
    type V = Map<u32, PeerConn<H>>;

    /// The peers by the bits of their addresses.
    closed spec fn view(&self) -> Map<u32, PeerConn<H>> {
        self.peers@
    }
}

/// How long a peer has been idle.
pub open spec fn idle(now: u64, last_used: u64) -> int {
    if now > last_used {
        now - last_used
    } else {
        0
    }
}

/// Whether a peer stays when those idle for `max_idle` or longer are dropped.
pub open spec fn stays<H>(m: Map<u32, PeerConn<H>>, bits: u32, max_idle: u64, now: u64) -> bool {
    m.contains_key(bits) && idle(now, m[bits].last_used) < max_idle
}

/// The peers that stay.
pub open spec fn fresh<H>(m: Map<u32, PeerConn<H>>, max_idle: u64, now: u64) -> Map<
    u32,
    PeerConn<H>,
> {
    Map::new(|bits: u32| stays(m, bits, max_idle, now), |bits: u32| m[bits])
}

/// The peers after one was looked up: its time is the present one.
pub open spec fn touched<H>(m: Map<u32, PeerConn<H>>, ip: Ipv4, now: u64) -> Map<
    u32,
    PeerConn<H>,
> {
    if m.contains_key(ip.bits) {
        m.insert(ip.bits, PeerConn { send: m[ip.bits].send, last_used: now })
    } else {
        m
    }
}

/// Whether `list` announces the peers of a pool, each once and by its address.
pub open spec fn announces<H>(m: Map<u32, PeerConn<H>>, list: Seq<PeerView>) -> bool {
    exists|keys: Seq<u32>|
        #[trigger] lists_keys(keys, m) && list == keys.map_values(
            |bits: u32| known_by_address(Ipv4 { bits }),
        )
}

/// A peer that is looked up stays, with its handle, at least until it has been
/// idle for `max_idle` since.
pub proof fn used_peer_stays<H>(
    m: Map<u32, PeerConn<H>>,
    ip: Ipv4,
    used: u64,
    max_idle: u64,
    now: u64,
)
    requires
        m.contains_key(ip.bits),
        idle(now, used) < max_idle,
    ensures
        fresh(touched(m, ip, used), max_idle, now).contains_key(ip.bits),
        fresh(touched(m, ip, used), max_idle, now)[ip.bits].send == m[ip.bits].send,
{
}

/// A peer that was added stays, with its handle, at least until it has been idle
/// for `max_idle` since.
pub proof fn added_peer_stays<H>(
    m: Map<u32, PeerConn<H>>,
    ip: Ipv4,
    send: H,
    added: u64,
    max_idle: u64,
    now: u64,
)
    requires
        idle(now, added) < max_idle,
    ensures
        ({
            let with = m.insert(ip.bits, PeerConn { send, last_used: added });
            &&& fresh(with, max_idle, now).contains_key(ip.bits)
            &&& fresh(with, max_idle, now)[ip.bits].send == send
        }),
{
}

/// Looking up a peer changes no other one, and no handle at all.
pub proof fn lookup_changes_time_only<H>(m: Map<u32, PeerConn<H>>, ip: Ipv4, other: u32, now: u64)
    ensures
        touched(m, ip, now).contains_key(other) <==> m.contains_key(other),
        m.contains_key(other) ==> touched(m, ip, now)[other].send == m[other].send,
        other != ip.bits ==> touched(m, ip, now)[other] == m[other],
{
}

/// Dropping idle peers twice drops what the later time drops, and nothing more.
pub proof fn cleanup_twice<H>(m: Map<u32, PeerConn<H>>, max_idle: u64, earlier: u64, later: u64)
    requires
        earlier <= later,
    ensures
        fresh(fresh(m, max_idle, earlier), max_idle, later) == fresh(m, max_idle, later),
{
    assert(fresh(fresh(m, max_idle, earlier), max_idle, later) =~= fresh(m, max_idle, later));
}

/// With a limit of zero every peer is dropped.
pub proof fn no_idle_time_drops_all<H>(m: Map<u32, PeerConn<H>>, now: u64)
    ensures
        fresh(m, 0, now) == Map::<u32, PeerConn<H>>::empty(),
{
    assert(fresh(m, 0, now) =~= Map::<u32, PeerConn<H>>::empty());
}

/// A list that announces a pool names each peer by its address, and nobody else.
pub proof fn announced_addresses<H>(m: Map<u32, PeerConn<H>>, list: Seq<PeerView>)
    requires
        announces(m, list),
    ensures
        forall|ip: Ipv4| #[trigger]
            m.contains_key(ip.bits) <==> list.contains(known_by_address(ip)),
        list.no_duplicates(),
{
    let keys = choose|keys: Seq<u32>|
        #[trigger] lists_keys(keys, m) && list == keys.map_values(
            |bits: u32| known_by_address(Ipv4 { bits }),
        );
    assert forall|ip: Ipv4| #[trigger] m.contains_key(ip.bits) <==> list.contains(
        known_by_address(ip),
    ) by {
        if m.contains_key(ip.bits) {
            assert(keys.contains(ip.bits));
            let i = choose|i: int| 0 <= i < keys.len() && keys[i] == ip.bits;
            assert(list[i] == known_by_address(Ipv4 { bits: keys[i] }));
        }
        if list.contains(known_by_address(ip)) {
            let i = choose|i: int| 0 <= i < list.len() && list[i] == known_by_address(ip);
            let found = Ipv4 { bits: keys[i] };
            assert(list[i] == known_by_address(found));
            address_survives_text(ip);
            address_survives_text(found);
            assert(keys.contains(ip.bits));
        }
    }
    assert forall|i: int, j: int| 0 <= i < list.len() && 0 <= j < list.len() && i != j implies list[i]
        != list[j] by {
        let a = Ipv4 { bits: keys[i] };
        let b = Ipv4 { bits: keys[j] };
        assert(list[i] == known_by_address(a) && list[j] == known_by_address(b));
        address_survives_text(a);
        address_survives_text(b);
    }
}

impl<H> PeerPool<H> {
    /// A pool without peers.
    pub fn new() -> (r: PeerPool<H>)
        ensures
            r@ == Map::<u32, PeerConn<H>>::empty(),
    {
        PeerPool { peers: HashMap::new() }
    }

    /// Adds a peer, in place of one with the same address.
    pub fn insert(&mut self, ip: Ipv4, send: H, now: u64)
        ensures
            final(self)@ == old(self)@.insert(ip.bits, PeerConn { send, last_used: now }),
    {
        self.peers.insert(ip.bits, PeerConn { send, last_used: now });
    }

    /// The connected peers as they are announced, in no particular order.
    pub fn list_peers(&self) -> (r: Vec<PeerInfo>)
        ensures
            announces(self@, peers_view(r@)),
    {
        let keys = key_list(&self.peers);
        let mut r: Vec<PeerInfo> = Vec::new();
        let ghost all = keys@.map_values(|bits: u32| known_by_address(Ipv4 { bits }));
        for i in 0..keys.len()
            invariant
                all == keys@.map_values(|bits: u32| known_by_address(Ipv4 { bits })),
                peers_view(r@) == all.take(i as int),
        {
            let ghost before = peers_view(r@);
            let ip = Ipv4 { bits: keys[i] };
            let p = PeerInfo { ip: ip.to_text(), pubkey: String::new(), ticket: String::new() };
            let ghost v = p@;
            r.push(p);
            assert(v == known_by_address(ip));
            assert(peers_view(r@) =~= before.push(v));
            assert(all.take(i + 1) =~= all.take(i as int).push(all[i as int]));
        }
        assert(all.take(all.len() as int) =~= all);
        r
    }

    /// Drops the peers that have been idle for `max_idle` or longer, and gives
    /// their addresses, each once.
    pub fn cleanup(&mut self, max_idle: u64, now: u64) -> (dropped: Vec<Ipv4>)
        ensures
            final(self)@ == fresh(old(self)@, max_idle, now),
            dropped@.no_duplicates(),
            forall|ip: Ipv4| #[trigger]
                dropped@.contains(ip) <==> old(self)@.contains_key(ip.bits)
                    && !final(self)@.contains_key(ip.bits),
    {
        let keys = key_list(&self.peers);
        let mut dropped: Vec<Ipv4> = Vec::new();
        let ghost before = self@;
        for i in 0..keys.len()
            invariant
                lists_keys(keys@, before),
                forall|bits: u32| #[trigger]
                    self@.contains_key(bits) <==> before.contains_key(bits) && (stays(
                        before,
                        bits,
                        max_idle,
                        now,
                    ) || !keys@.take(i as int).contains(bits)),
                forall|bits: u32|
                    #[trigger] self@.contains_key(bits) ==> self@[bits] == before[bits],
                dropped@.no_duplicates(),
                forall|ip: Ipv4| #[trigger]
                    dropped@.contains(ip) <==> keys@.take(i as int).contains(ip.bits) && !stays(
                        before,
                        ip.bits,
                        max_idle,
                        now,
                    ),
        {
            let bits = keys[i];
            let ghost seen = keys@.take(i as int);
            let ghost next = keys@.take(i + 1);
            let ghost had = self@;
            let ghost listed = dropped@;
            proof {
                extended(keys@, i as int);
                assert(keys@.contains(bits));
                assert(before.contains_key(bits));
                assert(self@.contains_key(bits));
            }
            let keep = match self.peers.get(&bits) {
                Some(p) => now.saturating_sub(p.last_used) < max_idle,
                None => true,
            };
            assert(keep == stays(before, bits, max_idle, now));
            if !keep {
                self.peers.remove(&bits);
                dropped.push(Ipv4 { bits });
                proof {
                    pushed(listed, Ipv4 { bits });
                }
            }
            proof {
                assert forall|ip: Ipv4| #[trigger] dropped@.contains(ip) <==> next.contains(ip.bits)
                    && !stays(before, ip.bits, max_idle, now) by {
                    assert(listed.contains(ip) <==> seen.contains(ip.bits) && !stays(
                        before,
                        ip.bits,
                        max_idle,
                        now,
                    ));
                }
                assert forall|b: u32| #[trigger] self@.contains_key(b) <==> before.contains_key(b)
                    && (stays(before, b, max_idle, now) || !next.contains(b)) by {
                    assert(had.contains_key(b) <==> before.contains_key(b) && (stays(
                        before,
                        b,
                        max_idle,
                        now,
                    ) || !seen.contains(b)));
                }
                assert forall|b: u32| #[trigger] self@.contains_key(b) implies self@[b]
                    == before[b] by {
                    assert(had.contains_key(b));
                }
            }
        }
        proof {
            assert(keys@.take(keys@.len() as int) =~= keys@);
            assert(self@ =~= fresh(before, max_idle, now));
            assert forall|ip: Ipv4| #[trigger] dropped@.contains(ip) <==> before.contains_key(
                ip.bits,
            ) && !self@.contains_key(ip.bits) by {
                assert(keys@.contains(ip.bits) <==> before.contains_key(ip.bits));
            }
        }
        dropped
    }
}

/// The answer to a greeting: the own address of the node that answers, and the
/// peers that it is connected to.
pub fn peer_list<H>(pool: &PeerPool<H>, self_ip: Ipv4) -> (r: VnetMsg)
    ensures
        r matches VnetMsg::PeerList { ip: Some(ip), peers } && ip@ == dotted(self_ip) && announces(
            pool@,
            peers_view(peers@),
        ),
{
    VnetMsg::PeerList { ip: Some(self_ip.to_text()), peers: pool.list_peers() }
}

impl<H: Clone> PeerPool<H> {
    /// A clone of the handle of a peer, whose time of last use becomes the
    /// present one.
    pub fn get_send(&mut self, ip: Ipv4, now: u64) -> (r: Option<H>)
        ensures
            final(self)@ == touched(old(self)@, ip, now),
            match r {
                Some(send) => old(self)@.contains_key(ip.bits) && cloned(
                    old(self)@[ip.bits].send,
                    send,
                ),
                None => !old(self)@.contains_key(ip.bits),
            },
    {
        match self.peers.remove(&ip.bits) {
            Some(p) => {
                let send = p.send.clone();
                self.peers.insert(ip.bits, PeerConn { send: p.send, last_used: now });
                assert(self@ =~= touched(old(self)@, ip, now));
                Some(send)
            },
            None => {
                assert(self@ =~= old(self)@);
                None
            },
        }
    }
}

/// A peer that is added is there with its handle and the present time, and every
/// other peer is as it was.
pub proof fn peer_is_added<H>(pool: &mut PeerPool<H>, ip: Ipv4, send: H, now: u64, other: u32)
    requires
        call_ensures(PeerPool::<H>::insert, (pool, ip, send, now), ()),
    ensures
        final(pool)@.contains_key(ip.bits),
        final(pool)@[ip.bits].send == send,
        final(pool)@[ip.bits].last_used == now,
        other != ip.bits ==> (final(pool)@.contains_key(other) <==> old(pool)@.contains_key(other)),
        other != ip.bits && old(pool)@.contains_key(other) ==> final(pool)@[other] == old(pool)@[other],
{
}

/// A lookup finds exactly the peers that are there, gives a clone of their handle,
/// and makes the present time that of their last use; nothing else changes.
pub proof fn peer_is_looked_up<H: Clone>(
    pool: &mut PeerPool<H>,
    ip: Ipv4,
    now: u64,
    r: Option<H>,
    other: u32,
)
    requires
        call_ensures(PeerPool::<H>::get_send, (pool, ip, now), r),
    ensures
        r is Some <==> old(pool)@.contains_key(ip.bits),
        r matches Some(send) ==> cloned(old(pool)@[ip.bits].send, send) && final(pool)@[ip.bits].last_used == now,
        final(pool)@.contains_key(other) <==> old(pool)@.contains_key(other),
        old(pool)@.contains_key(other) ==> final(pool)@[other].send == old(pool)@[other].send,
        old(pool)@.contains_key(other) && other != ip.bits ==> final(pool)@[other] == old(pool)@[other],
{
}

/// The peers that stay are those last used less than `max_idle` ago, each as it was;
/// the others are dropped and listed.
pub proof fn idle_peers_are_dropped<H>(
    pool: &mut PeerPool<H>,
    max_idle: u64,
    now: u64,
    dropped: Vec<Ipv4>,
    bits: u32,
)
    requires
        call_ensures(PeerPool::<H>::cleanup, (pool, max_idle, now), dropped),
    ensures
        final(pool)@.contains_key(bits) <==> old(pool)@.contains_key(bits) && max_idle > 0 && now
            < old(pool)@[bits].last_used + max_idle,
        final(pool)@.contains_key(bits) ==> final(pool)@[bits] == old(pool)@[bits],
        dropped@.contains(Ipv4 { bits }) <==> old(pool)@.contains_key(bits) && !final(pool)@.contains_key(bits),
        dropped@.no_duplicates(),
{
    assert(dropped@.contains(Ipv4 { bits }) <==> old(pool)@.contains_key(Ipv4 { bits }.bits)
        && !final(pool)@.contains_key(Ipv4 { bits }.bits));
}

/// The peers that stay are those last used less than `max_idle` ago, each as it was.
pub proof fn fresh_peers<H>(m: Map<u32, PeerConn<H>>, max_idle: u64, now: u64, bits: u32)
    ensures
        fresh(m, max_idle, now).contains_key(bits) <==> m.contains_key(bits) && max_idle > 0 && now
            < m[bits].last_used + max_idle,
        fresh(m, max_idle, now).contains_key(bits) ==> fresh(m, max_idle, now)[bits] == m[bits],
{
}

/// A list of peers names the address of each peer that is there, once, and nobody
/// else, and holds no key and no ticket.
pub proof fn peers_are_listed<H>(pool: PeerPool<H>, r: Vec<PeerInfo>, ip: Ipv4)
    requires
        call_ensures(PeerPool::<H>::list_peers, (&pool,), r),
    ensures
        pool@.contains_key(ip.bits) <==> exists|i: int|
            0 <= i < r@.len() && (#[trigger] r@[i]).ip@ == dotted(ip),
        forall|i: int|
            0 <= i < r@.len() ==> (#[trigger] r@[i]).pubkey@.len() == 0 && r@[i].ticket@.len() == 0,
        forall|i: int, j: int|
            0 <= i < j < r@.len() ==> (#[trigger] r@[i]).ip@ != (#[trigger] r@[j]).ip@,
        forall|i: int|
            0 <= i < r@.len() ==> exists|x: Ipv4|
                pool@.contains_key(x.bits) && (#[trigger] r@[i]).ip@ == #[trigger] dotted(x),
{
    listed_addresses(pool@, r@, ip);
}

/// What a list that announces the peers of a pool says.
proof fn listed_addresses<H>(m: Map<u32, PeerConn<H>>, r: Seq<PeerInfo>, ip: Ipv4)
    requires
        announces(m, peers_view(r)),
    ensures
        m.contains_key(ip.bits) <==> exists|i: int|
            0 <= i < r.len() && (#[trigger] r[i]).ip@ == dotted(ip),
        forall|i: int|
            0 <= i < r.len() ==> (#[trigger] r[i]).pubkey@.len() == 0 && r[i].ticket@.len() == 0,
        forall|i: int, j: int|
            0 <= i < j < r.len() ==> (#[trigger] r[i]).ip@ != (#[trigger] r[j]).ip@,
        forall|i: int|
            0 <= i < r.len() ==> exists|x: Ipv4|
                m.contains_key(x.bits) && (#[trigger] r[i]).ip@ == #[trigger] dotted(x),
{
    let list = peers_view(r);
    let keys = choose|keys: Seq<u32>|
        #[trigger] lists_keys(keys, m) && list == keys.map_values(
            |bits: u32| known_by_address(Ipv4 { bits }),
        );
    assert(list.len() == r.len() && keys.len() == r.len());
    assert forall|i: int| 0 <= i < r.len() implies (#[trigger] r[i])@ == known_by_address(
        Ipv4 { bits: keys[i] },
    ) by {
        assert(list[i] == r[i]@);
    }
    assert forall|i: int| 0 <= i < r.len() implies exists|x: Ipv4|
        m.contains_key(x.bits) && (#[trigger] r[i]).ip@ == #[trigger] dotted(x) by {
        let x = Ipv4 { bits: keys[i] };
        assert(r[i]@ == known_by_address(x));
        assert(keys.contains(keys[i]));
        assert(m.contains_key(x.bits) && r[i].ip@ == dotted(x));
    }
    assert forall|i: int, j: int| 0 <= i < j < r.len() implies (#[trigger] r[i]).ip@ != (
    #[trigger] r[j]).ip@ by {
        assert(r[i]@ == known_by_address(Ipv4 { bits: keys[i] }));
        assert(r[j]@ == known_by_address(Ipv4 { bits: keys[j] }));
        address_survives_text(Ipv4 { bits: keys[i] });
        address_survives_text(Ipv4 { bits: keys[j] });
    }
    if m.contains_key(ip.bits) {
        assert(keys.contains(ip.bits));
        let i = choose|i: int| 0 <= i < keys.len() && keys[i] == ip.bits;
        assert(r[i]@ == known_by_address(Ipv4 { bits: keys[i] }));
        assert(r[i].ip@ == dotted(ip));
    }
    if exists|i: int| 0 <= i < r.len() && (#[trigger] r[i]).ip@ == dotted(ip) {
        let i = choose|i: int| 0 <= i < r.len() && (#[trigger] r[i]).ip@ == dotted(ip);
        let x = Ipv4 { bits: keys[i] };
        assert(r[i]@ == known_by_address(x));
        address_survives_text(x);
        address_survives_text(ip);
        assert(keys.contains(keys[i]));
    }
}

/// The answer to a greeting names the address of the node that answers, and lists the
/// peers that are there.
pub proof fn answer_lists_the_peers<H>(pool: PeerPool<H>, self_ip: Ipv4, r: VnetMsg, ip: Ipv4)
    requires
        call_ensures(peer_list, (&pool, self_ip), r),
    ensures
        r matches VnetMsg::PeerList { ip: Some(own), peers } && own@ == dotted(self_ip) && (
        pool@.contains_key(ip.bits) <==> exists|i: int|
            0 <= i < peers@.len() && (#[trigger] peers@[i]).ip@ == dotted(ip)),
{
    listed_addresses(pool@, r->peers@, ip);
}

} // verus!
