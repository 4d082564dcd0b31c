//! The ports that a gateway listens on: which to open and which to close when
//! the host announces its services.

use crate::maps::{extended, key_list, pushed};
use crate::services::{
    catalog_has_ports_found, has_port, is_catalog, services_view, Service, ServiceInfo,
};
use std::collections::HashMap;
use vstd::prelude::*;

verus! {

broadcast use vstd::std_specs::hash::group_hash_axioms;

/// The open ports, each with the handle of its listener.
#[derive(Debug)]
pub struct ActivePorts<H> {
    active: HashMap<u16, H>,
}

impl<H> View for ActivePorts<H> {
    type V = Map<u16, H>;

    closed spec fn view(&self) -> Map<u16, H> {
        self.active@
    }
}

/// What an announcement changes.
#[derive(Debug)]
pub struct PortChanges<H> {
    /// The listeners to stop, with their ports.
    pub removed: Vec<(u16, H)>,
    /// The ports to open.
    pub added: Vec<u16>,
}

/// The ports of some services, in order.
pub open spec fn port_list(services: Seq<Service>) -> Seq<u16> {
    services.map_values(|s: Service| s.port)
}

/// The listeners that stay when some services are announced.
pub open spec fn kept<H>(m: Map<u16, H>, services: Seq<Service>) -> Map<u16, H> {
    Map::new(|p: u16| m.contains_key(p) && has_port(services, p), |p: u16| m[p])
}

/// Whether a port is announced and not open yet.
pub open spec fn missing<H>(m: Map<u16, H>, services: Seq<Service>, p: u16) -> bool {
    has_port(services, p) && !m.contains_key(p)
}

/// Whether `list` holds each listener of `m` that `n` lacks, once.
pub open spec fn lists_removed<H>(m: Map<u16, H>, n: Map<u16, H>, list: Seq<(u16, H)>) -> bool {
    &&& forall|i: int, j: int|
        0 <= i < j < list.len() ==> (#[trigger] list[i]).0 != (#[trigger] list[j]).0
    &&& forall|i: int|
        0 <= i < list.len() ==> m.contains_key((#[trigger] list[i]).0) && !n.contains_key(list[i].0)
            && m[list[i].0] == list[i].1
    &&& forall|p: u16|
        m.contains_key(p) && !n.contains_key(p) ==> exists|i: int|
            0 <= i < list.len() && (#[trigger] list[i]).0 == p
}

/// The ports that the first announcement opens are those that it names.
pub proof fn first_announcement_opens_all(services: Seq<Service>, p: u16)
    ensures
        port_list(services).contains(p) <==> has_port(services, p),
{
    let list = port_list(services);
    if list.contains(p) {
        let i = choose|i: int| 0 <= i < list.len() && list[i] == p;
        assert(services[i].port == p);
    }
    if has_port(services, p) {
        let i = choose|i: int| 0 <= i < services.len() && (#[trigger] services[i]).port == p;
        assert(list[i] == p);
    }
}

/// Once the missing ports of an announcement were opened, the open ports are
/// those announced, and ports that were open and are announced still have their
/// listeners.
pub proof fn announcement_settles<H>(m: Map<u16, H>, services: Seq<Service>, opened: Map<u16, H>)
    requires
        forall|p: u16| #[trigger] opened.contains_key(p) <==> missing(m, services, p),
    ensures
        ({
            let now = kept(m, services).union_prefer_right(opened);
            &&& forall|p: u16| #[trigger] now.contains_key(p) <==> has_port(services, p)
            &&& forall|p: u16|
                #[trigger] m.contains_key(p) && has_port(services, p) ==> now[p] == m[p]
        }),
{
}

/// Once a gateway opened the missing ports of an announced catalog, its open
/// ports are exactly those of the services that the host found.
pub proof fn open_ports_are_those_found<H>(
    all: Seq<Service>,
    catalog: Seq<Service>,
    m: Map<u16, H>,
    opened: Map<u16, H>,
)
    requires
        is_catalog(all, catalog),
        forall|p: u16| #[trigger] opened.contains_key(p) <==> missing(m, catalog, p),
    ensures
        forall|p: u16| #[trigger]
            kept(m, catalog).union_prefer_right(opened).contains_key(p) <==> has_port(all, p),
{
    announcement_settles(m, catalog, opened);
    assert forall|p: u16| #[trigger]
        kept(m, catalog).union_prefer_right(opened).contains_key(p) <==> has_port(all, p) by {
        catalog_has_ports_found(all, catalog, p);
    }
}

/// The same announcement again changes nothing.
pub proof fn announcement_repeated<H>(m: Map<u16, H>, services: Seq<Service>)
    requires
        forall|p: u16| #[trigger] m.contains_key(p) <==> has_port(services, p),
    ensures
        kept(m, services) == m,
        forall|p: u16| !#[trigger] missing(m, services, p),
{
    assert(kept(m, services) =~= m);
}

/// An announcement without services closes every port and opens none.
pub proof fn empty_announcement_closes_all<H>(m: Map<u16, H>, services: Seq<Service>)
    requires
        services.len() == 0,
    ensures
        kept(m, services) == Map::<u16, H>::empty(),
        forall|p: u16| !#[trigger] missing(m, services, p),
{
    assert(kept(m, services) =~= Map::<u16, H>::empty());
}

/// Whether a port is in a list.
fn holds_port(list: &Vec<u16>, p: u16) -> (r: bool)
    ensures
        r == list@.contains(p),
{
    for i in 0..list.len()
        invariant
            forall|j: int| 0 <= j < i ==> list@[j] != p,
    {
        if list[i] == p {
            return true;
        }
    }
    false
}

/// Whether some service has a port.
pub fn announces_port(services: &Vec<ServiceInfo>, p: u16) -> (r: bool)
    ensures
        r == has_port(services_view(services@), p),
{
    let ghost all = services_view(services@);
    for i in 0..services.len()
        invariant
            all == services_view(services@),
            forall|j: int| 0 <= j < i ==> (#[trigger] all[j]).port != p,
    {
        assert(all[i as int].port == services@[i as int].port);
        if services[i].port == p {
            return true;
        }
    }
    false
}

/// The ports that the first line of the host opens: those of all services that it
/// announces, and none where it is no announcement.
pub open spec fn opened_first(announced: Option<Seq<Service>>) -> Seq<u16> {
    match announced {
        Some(services) => port_list(services),
        None => seq![],
    }
}

/// The services of an announcement, if there is one.
pub open spec fn announced_view(announced: Option<Vec<ServiceInfo>>) -> Option<Seq<Service>> {
    match announced {
        Some(services) => Some(services_view(services@)),
        None => None,
    }
}

/// The ports to open for the first line of the host.
pub fn first_ports(announced: &Option<Vec<ServiceInfo>>) -> (r: Vec<u16>)
    ensures
        r@ == opened_first(announced_view(*announced)),
{
    let mut r: Vec<u16> = Vec::new();
    if let Some(services) = announced {
        let ghost all = port_list(services_view(services@));
        for i in 0..services.len()
            invariant
                all == port_list(services_view(services@)),
                r@ == all.take(i as int),
        {
            r.push(services[i].port);
            assert(all.take(i + 1) =~= all.take(i as int).push(all[i as int]));
        }
        assert(all.take(all.len() as int) =~= all);
    }
    r
}

impl<H> ActivePorts<H> {
    /// No open ports.
    pub fn new() -> (r: ActivePorts<H>)
        ensures
            r@ == Map::<u16, H>::empty(),
    {
        ActivePorts { active: HashMap::new() }
    }

    /// Records the listener of a port, and gives back the one that it replaces.
    pub fn insert(&mut self, port: u16, handle: H) -> (r: Option<H>)
        ensures
            final(self)@ == old(self)@.insert(port, handle),
            match r {
                Some(h) => old(self)@.contains_key(port) && old(self)@[port] == h,
                None => !old(self)@.contains_key(port),
            },
    {
        self.active.insert(port, handle)
    }

    /// Takes an announcement: the listeners of ports that it does not name come
    /// out, and the ports that it names and that are not open are listed.
    pub fn manage_ports(&mut self, services: &Vec<ServiceInfo>) -> (r: PortChanges<H>)
        ensures
            final(self)@ == kept(old(self)@, services_view(services@)),
            lists_removed(old(self)@, final(self)@, r.removed@),
            r.added@.no_duplicates(),
            forall|p: u16| #[trigger]
                r.added@.contains(p) <==> missing(old(self)@, services_view(services@), p),
    {
        let ghost before = self@;
        let ghost all = services_view(services@);
        let keys = key_list(&self.active);
        let mut gone: Vec<u16> = Vec::new();
        for i in 0..keys.len()
            invariant
                all == services_view(services@),
                keys@.no_duplicates(),
                gone@.no_duplicates(),
                forall|p: u16| #[trigger]
                    gone@.contains(p) <==> keys@.take(i as int).contains(p) && !has_port(all, p),
        {
            let p = keys[i];
            let ghost had = gone@;
            proof {
                extended(keys@, i as int);
            }
            if !announces_port(services, p) {
                gone.push(p);
                proof {
                    pushed(had, p);
                }
            }
        }
        assert(keys@.take(keys@.len() as int) =~= keys@);
        let removed = self.take_all(&gone);
        let mut added: Vec<u16> = Vec::new();
        for i in 0..services.len()
            invariant
                all == services_view(services@),
                added@.no_duplicates(),
                forall|p: u16| #[trigger] self@.contains_key(p) <==> before.contains_key(p)
                    && has_port(all, p),
                forall|p: u16| #[trigger]
                    added@.contains(p) <==> has_port(all.take(i as int), p)
                        && !before.contains_key(p),
        {
            let p = services[i].port;
            let ghost had = added@;
            proof {
                assert(all[i as int].port == p);
                assert(has_port(all, p));
                assert(self@.contains_key(p) <==> before.contains_key(p));
                port_extended(all, i as int);
            }
            if !self.active.contains_key(&p) && !holds_port(&added, p) {
                added.push(p);
                proof {
                    pushed(had, p);
                }
            }
            assert forall|q: u16| #[trigger] added@.contains(q) <==> has_port(all.take(i + 1), q)
                && !before.contains_key(q) by {
                assert(had.contains(q) <==> has_port(all.take(i as int), q)
                    && !before.contains_key(q));
            }
        }
        proof {
            assert(all.take(all.len() as int) =~= all);
            assert(self@ =~= kept(before, all));
            assert forall|p: u16| #[trigger] added@.contains(p) <==> missing(before, all, p) by {
            }
        }
        PortChanges { removed, added }
    }

    /// Takes the line of an update: an announcement changes the ports, any other
    /// line changes nothing.
    pub fn take_line(&mut self, announced: &Option<Vec<ServiceInfo>>) -> (r: PortChanges<H>)
        ensures
            match announced_view(*announced) {
                Some(services) => {
                    &&& final(self)@ == kept(old(self)@, services)
                    &&& lists_removed(old(self)@, final(self)@, r.removed@)
                    &&& r.added@.no_duplicates()
                    &&& forall|p: u16| #[trigger]
                        r.added@.contains(p) <==> missing(old(self)@, services, p)
                },
                None => final(self)@ == old(self)@ && r.removed@.len() == 0 && r.added@.len() == 0,
            },
    {
        match announced {
            Some(services) => self.manage_ports(services),
            None => PortChanges { removed: Vec::new(), added: Vec::new() },
        }
    }

    /// Takes the listeners of some open ports out.
    fn take_all(&mut self, gone: &Vec<u16>) -> (removed: Vec<(u16, H)>)
        requires
            gone@.no_duplicates(),
            forall|p: u16| #[trigger] gone@.contains(p) ==> old(self)@.contains_key(p),
        ensures
            forall|p: u16| #[trigger]
                final(self)@.contains_key(p) <==> old(self)@.contains_key(p) && !gone@.contains(p),
            forall|p: u16|
                #[trigger] final(self)@.contains_key(p) ==> final(self)@[p] == old(self)@[p],
            lists_removed(old(self)@, final(self)@, removed@),
    {
        let ghost before = self@;
        let mut removed: Vec<(u16, H)> = Vec::new();
        for i in 0..gone.len()
            invariant
                gone@.no_duplicates(),
                forall|p: u16| #[trigger] gone@.contains(p) ==> before.contains_key(p),
                removed@.len() == i,
                forall|j: int| 0 <= j < i ==> (#[trigger] removed@[j]).0 == gone@[j],
                forall|j: int| 0 <= j < i ==> before[gone@[j]] == (#[trigger] removed@[j]).1,
                forall|p: u16| #[trigger] self@.contains_key(p) <==> before.contains_key(p)
                    && !gone@.take(i as int).contains(p),
                forall|p: u16| #[trigger] self@.contains_key(p) ==> self@[p] == before[p],
        {
            let p = gone[i];
            proof {
                extended(gone@, i as int);
                assert(gone@.contains(p));
                assert(self@.contains_key(p));
            }
            match self.active.remove(&p) {
                Some(h) => removed.push((p, h)),
                None => {
                    assert(false);
                },
            }
        }
        proof {
            assert(gone@.take(gone@.len() as int) =~= gone@);
            assert forall|p: u16| before.contains_key(p) && !self@.contains_key(p) implies exists|
                i: int,
            | 0 <= i < removed@.len() && (#[trigger] removed@[i]).0 == p by {
                assert(gone@.contains(p));
                let i = choose|i: int| 0 <= i < gone@.len() && gone@[i] == p;
                assert(removed@[i].0 == p);
            }
            assert forall|i: int| 0 <= i < removed@.len() implies before.contains_key(
                (#[trigger] removed@[i]).0,
            ) && !self@.contains_key(removed@[i].0) && before[removed@[i].0] == removed@[i].1 by {
                assert(gone@.contains(gone@[i]));
            }
        }
        removed
    }

    /// Takes all listeners out, each once.
    pub fn drain(&mut self) -> (removed: Vec<(u16, H)>)
        ensures
            final(self)@ == Map::<u16, H>::empty(),
            lists_removed(old(self)@, Map::<u16, H>::empty(), removed@),
    {
        let keys = key_list(&self.active);
        let removed = self.take_all(&keys);
        assert(self@ =~= Map::<u16, H>::empty());
        removed
    }
}

/// A longer beginning of some services has the port of one more.
proof fn port_extended(all: Seq<Service>, i: int)
    requires
        0 <= i < all.len(),
    ensures
        forall|p: u16| #[trigger]
            has_port(all.take(i + 1), p) <==> has_port(all.take(i), p) || p == all[i].port,
{
    let seen = all.take(i);
    let next = all.take(i + 1);
    assert forall|p: u16| #[trigger] has_port(next, p) <==> has_port(seen, p) || p
        == all[i].port by {
        if has_port(seen, p) {
            let j = choose|j: int| 0 <= j < seen.len() && (#[trigger] seen[j]).port == p;
            assert(next[j].port == p);
        }
        if p == all[i].port {
            assert(next[i].port == p);
        }
        if has_port(next, p) && p != all[i].port {
            let j = choose|j: int| 0 <= j < next.len() && (#[trigger] next[j]).port == p;
            assert(seen[j].port == p);
        }
    }
}

/// The first line of the host, where it is an announcement, opens a port for each
/// service that it announces, all of them and in order; any other line opens none.
pub proof fn first_line_opens_every_service(
    announced: Option<Vec<ServiceInfo>>,
    r: Vec<u16>,
    p: u16,
)
    requires
        call_ensures(first_ports, (&announced,), r),
    ensures
        announced is None ==> r@.len() == 0,
        announced matches Some(services) ==> {
            &&& r@.len() == services@.len()
            &&& forall|i: int|
                0 <= i < services@.len() ==> r@[i] == (#[trigger] services@[i]).port
            &&& r@.contains(p) <==> exists|i: int|
                0 <= i < services@.len() && (#[trigger] services@[i]).port == p
        },
{
    if let Some(services) = announced {
        let all = services_view(services@);
        assert(port_list(all).len() == services@.len());
        assert forall|i: int| 0 <= i < services@.len() implies r@[i] == (
        #[trigger] services@[i]).port by {
            assert(port_list(all)[i] == all[i].port);
        }
        if r@.contains(p) {
            let i = choose|i: int| 0 <= i < r@.len() && r@[i] == p;
            assert(services@[i].port == p);
        }
        if exists|i: int| 0 <= i < services@.len() && (#[trigger] services@[i]).port == p {
            let i = choose|i: int| 0 <= i < services@.len() && (#[trigger] services@[i]).port == p;
            assert(r@[i] == p);
        }
    }
}

/// Whether some service of a list has a port.
pub open spec fn named(services: Seq<ServiceInfo>, p: u16) -> bool {
    exists|i: int| 0 <= i < services.len() && (#[trigger] services[i]).port == p
}

/// A service of a list is one of what the list stands for.
proof fn named_in_view(services: Seq<ServiceInfo>, p: u16)
    ensures
        named(services, p) <==> has_port(services_view(services), p),
{
    let all = services_view(services);
    assert(all.len() == services.len());
    if named(services, p) {
        let i = choose|i: int| 0 <= i < services.len() && (#[trigger] services[i]).port == p;
        assert(all[i].port == p);
    }
    if has_port(all, p) {
        let i = choose|i: int| 0 <= i < all.len() && (#[trigger] all[i]).port == p;
        assert(services[i].port == p);
    }
}

/// What an announcement does to a port: it stays open exactly when it was open and is
/// named, and then keeps its listener; it is to be opened exactly when it is named and
/// was not open; its listener comes out exactly when it was open and is not named.
pub open spec fn announcement_acts<H>(
    before: Map<u16, H>,
    services: Seq<ServiceInfo>,
    after: Map<u16, H>,
    changes: PortChanges<H>,
    p: u16,
) -> bool {
    &&& after.contains_key(p) <==> before.contains_key(p) && named(services, p)
    &&& after.contains_key(p) ==> after[p] == before[p]
    &&& changes.added@.contains(p) <==> named(services, p) && !before.contains_key(p)
    &&& before.contains_key(p) && !named(services, p) <==> exists|i: int|
        0 <= i < changes.removed@.len() && (#[trigger] changes.removed@[i]).0 == p
    &&& forall|i: int|
        0 <= i < changes.removed@.len() && (#[trigger] changes.removed@[i]).0 == p
            ==> changes.removed@[i].1 == before[p]
}

/// Nothing is opened or closed twice.
pub open spec fn changes_once<H>(changes: PortChanges<H>) -> bool {
    &&& changes.added@.no_duplicates()
    &&& forall|i: int, j: int|
        0 <= i < j < changes.removed@.len() ==> (#[trigger] changes.removed@[i]).0 != (
        #[trigger] changes.removed@[j]).0
}

/// An announcement closes the ports that it does not name and opens those that it
/// names and that are not open; the others keep their listeners.
pub proof fn announcement_is_followed<H>(
    active: &mut ActivePorts<H>,
    services: Vec<ServiceInfo>,
    r: PortChanges<H>,
    p: u16,
)
    requires
        call_ensures(ActivePorts::<H>::manage_ports, (active, &services), r),
    ensures
        announcement_acts(old(active)@, services@, final(active)@, r, p),
        changes_once(r),
{
    named_in_view(services@, p);
    assert(r.added@.contains(p) <==> missing(old(active)@, services_view(services@), p));
}

/// The line of an update acts as the announcement that it is; any other line changes
/// nothing.
pub proof fn line_is_followed<H>(
    active: &mut ActivePorts<H>,
    announced: Option<Vec<ServiceInfo>>,
    r: PortChanges<H>,
    p: u16,
)
    requires
        call_ensures(ActivePorts::<H>::take_line, (active, &announced), r),
    ensures
        announced is None ==> final(active)@ == old(active)@ && r.removed@.len() == 0
            && r.added@.len() == 0,
        announced matches Some(services) ==> announcement_acts(
            old(active)@,
            services@,
            final(active)@,
            r,
            p,
        ) && changes_once(r),
{
    if let Some(services) = announced {
        named_in_view(services@, p);
        assert(r.added@.contains(p) <==> missing(old(active)@, services_view(services@), p));
    }
}

/// A port that is opened is open with its listener, and the others are as they were.
pub proof fn port_is_opened<H>(
    active: &mut ActivePorts<H>,
    port: u16,
    handle: H,
    r: Option<H>,
    p: u16,
)
    requires
        call_ensures(ActivePorts::<H>::insert, (active, port, handle), r),
    ensures
        final(active)@.contains_key(port) && final(active)@[port] == handle,
        p != port ==> (final(active)@.contains_key(p) <==> old(active)@.contains_key(p)),
        p != port && old(active)@.contains_key(p) ==> final(active)@[p] == old(active)@[p],
        r is Some <==> old(active)@.contains_key(port),
        r is Some ==> r->0 == old(active)@[port],
{
}

/// In the end no port is open, and every listener comes out.
pub proof fn all_ports_are_closed<H>(active: &mut ActivePorts<H>, r: Vec<(u16, H)>, p: u16)
    requires
        call_ensures(ActivePorts::<H>::drain, (active,), r),
    ensures
        !final(active)@.contains_key(p),
        old(active)@.contains_key(p) <==> exists|i: int|
            0 <= i < r@.len() && (#[trigger] r@[i]).0 == p,
        forall|i: int|
            0 <= i < r@.len() && (#[trigger] r@[i]).0 == p ==> r@[i].1 == old(active)@[p],
        forall|i: int, j: int|
            0 <= i < j < r@.len() ==> (#[trigger] r@[i]).0 != (#[trigger] r@[j]).0,
{
}

/// What stays and what is missing when services are announced, port by port.
pub proof fn kept_and_missing<H>(m: Map<u16, H>, services: Seq<Service>, p: u16)
    ensures
        kept(m, services).contains_key(p) <==> m.contains_key(p) && has_port(services, p),
        kept(m, services).contains_key(p) ==> kept(m, services)[p] == m[p],
        missing(m, services, p) <==> has_port(services, p) && !m.contains_key(p),
{
}

} // verus!
