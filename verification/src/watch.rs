//! Watching the services of a host: a scan is published when it differs from the
//! one before.

use crate::services::{services_view, Service, ServiceInfo};
use vstd::prelude::*;

verus! {

/// Remembers the services that were last published.
#[derive(Debug)]
pub struct PortWatcher {
    last: Vec<ServiceInfo>,
}

impl View for PortWatcher {
    type V = Seq<Service>;

    closed spec fn view(&self) -> Seq<Service> {
        services_view(self.last@)
    }
}

/// What is remembered after a scan, which may have failed.
pub open spec fn remembered(last: Seq<Service>, scan: Option<Seq<Service>>) -> Seq<Service> {
    match scan {
        Some(current) => current,
        None => last,
    }
}

/// Whether a scan is published: it succeeded and differs from what is remembered.
pub open spec fn publishes(last: Seq<Service>, scan: Option<Seq<Service>>) -> bool {
    match scan {
        Some(current) => current != last,
        None => false,
    }
}

/// What is remembered after some scans.
pub open spec fn remembered_after(last: Seq<Service>, scans: Seq<Option<Seq<Service>>>) -> Seq<
    Service,
>
    decreases scans.len(),
{
    if scans.len() == 0 {
        last
    } else {
        remembered(remembered_after(last, scans.drop_last()), scans.last())
    }
}

/// What is published of some scans, in order.
pub open spec fn published(last: Seq<Service>, scans: Seq<Option<Seq<Service>>>) -> Seq<
    Seq<Service>,
>
    decreases scans.len(),
{
    if scans.len() == 0 {
        seq![]
    } else {
        let before = published(last, scans.drop_last());
        if publishes(remembered_after(last, scans.drop_last()), scans.last()) {
            before.push(scans.last()->0)
        } else {
            before
        }
    }
}

/// What is remembered is what was last published, or what was there at first
/// where nothing was published.
pub proof fn last_published_is_remembered(last: Seq<Service>, scans: Seq<Option<Seq<Service>>>)
    ensures
        remembered_after(last, scans) == (if published(last, scans).len() == 0 {
            last
        } else {
            published(last, scans).last()
        }),
    decreases scans.len(),
{
    if scans.len() > 0 {
        last_published_is_remembered(last, scans.drop_last());
    }
}

/// No two publications that follow each other are the same, and the first
/// differs from what was there at first.
pub proof fn publications_differ(last: Seq<Service>, scans: Seq<Option<Seq<Service>>>)
    ensures
        forall|i: int|
            0 < i < published(last, scans).len() ==> #[trigger] published(last, scans)[i]
                != published(last, scans)[i - 1],
        published(last, scans).len() > 0 ==> published(last, scans)[0] != last,
    decreases scans.len(),
{
    if scans.len() > 0 {
        let before = scans.drop_last();
        publications_differ(last, before);
        last_published_is_remembered(last, before);
        let p = published(last, before);
        let q = published(last, scans);
        assert forall|i: int| 0 < i < q.len() implies #[trigger] q[i] != q[i - 1] by {
            if i < p.len() {
                assert(q[i] == p[i] && q[i - 1] == p[i - 1]);
            } else {
                assert(q[i - 1] == p[i - 1]);
            }
        }
    }
}

/// Whether two lists of services are the same.
pub fn same_services(a: &Vec<ServiceInfo>, b: &Vec<ServiceInfo>) -> (r: bool)
    ensures
        r == (services_view(a@) == services_view(b@)),
{
    let ghost x = services_view(a@);
    let ghost y = services_view(b@);
    if a.len() != b.len() {
        assert(x.len() != y.len());
        return false;
    }
    for i in 0..a.len()
        invariant
            a@.len() == b@.len(),
            x == services_view(a@),
            y == services_view(b@),
            forall|j: int| 0 <= j < i ==> x[j] == y[j],
    {
        if a[i].port != b[i].port || a[i].cmd != b[i].cmd {
            assert(x[i as int] != y[i as int]);
            return false;
        }
        assert(x[i as int] == y[i as int]);
    }
    assert(x =~= y);
    true
}

/// A copy of a list of services.
pub fn copy_services(a: &Vec<ServiceInfo>) -> (r: Vec<ServiceInfo>)
    ensures
        services_view(r@) == services_view(a@),
{
    let mut r: Vec<ServiceInfo> = Vec::new();
    for i in 0..a.len()
        invariant
            r@.len() == i,
            forall|j: int| 0 <= j < i ==> (#[trigger] r@[j])@ == a@[j]@,
    {
        r.push(ServiceInfo { port: a[i].port, cmd: a[i].cmd.clone() });
    }
    assert(services_view(r@) =~= services_view(a@));
    r
}

impl PortWatcher {
    /// A watcher that has published nothing.
    pub fn new() -> (r: PortWatcher)
        ensures
            r@ == Seq::<Service>::empty(),
    {
        let r = PortWatcher { last: Vec::new() };
        assert(r@ =~= Seq::<Service>::empty());
        r
    }

    /// Takes a scan, which may have failed, and gives what is to be published.
    pub fn port_watcher(&mut self, scan: Option<Vec<ServiceInfo>>) -> (r: Option<Vec<ServiceInfo>>)
        ensures
            ({
                let seen = match scan {
                    Some(current) => Some(services_view(current@)),
                    None => None,
                };
                &&& final(self)@ == remembered(old(self)@, seen)
                &&& r is Some <==> publishes(old(self)@, seen)
                &&& r is Some ==> services_view(r->0@) == seen->0
            }),
    {
        match scan {
            Some(current) => {
                if same_services(&current, &self.last) {
                    None
                } else {
                    let copy = copy_services(&current);
                    self.last = current;
                    Some(copy)
                }
            },
            None => None,
        }
    }
}

/// What a scan that succeeded found is remembered from then on, and is what was
/// published last; a scan that failed changes nothing.
pub proof fn scan_is_remembered(
    last: Seq<Service>,
    scans: Seq<Option<Seq<Service>>>,
    current: Seq<Service>,
)
    ensures
        remembered_after(last, scans.push(Some(current))) == current,
        remembered_after(last, scans.push(None)) == remembered_after(last, scans),
        published(last, scans.push(None)) == published(last, scans),
        published(last, scans.push(Some(current))).len() > 0 ==> published(
            last,
            scans.push(Some(current)),
        ).last() == current,
        published(last, scans.push(Some(current))).len() == 0 ==> last == current,
{
    assert(scans.push(Some(current)).drop_last() =~= scans);
    assert(scans.push(None::<Seq<Service>>).drop_last() =~= scans);
    last_published_is_remembered(last, scans.push(Some(current)));
}

/// A scan that failed is not published. One that succeeded is published exactly when
/// it differs from the one before, all of it, and is the one to compare with next.
pub proof fn scan_is_published_when_it_differs(
    watcher: &mut PortWatcher,
    scan: Option<Vec<ServiceInfo>>,
    r: Option<Vec<ServiceInfo>>,
)
    requires
        call_ensures(PortWatcher::port_watcher, (watcher, scan), r),
    ensures
        scan is None ==> r is None && final(watcher)@ == old(watcher)@,
        scan matches Some(current) ==> {
            &&& final(watcher)@ == services_view(current@)
            &&& r is None <==> services_view(current@) == old(watcher)@
            &&& r matches Some(told) ==> services_view(told@) == services_view(current@)
        },
{
}

/// Two lists of services are the same exactly when they are as long and have the same
/// port and the same command at each place, and a copy of a list is the same as it.
pub proof fn lists_are_compared_entry_by_entry(
    a: Vec<ServiceInfo>,
    b: Vec<ServiceInfo>,
    same: bool,
    copy: Vec<ServiceInfo>,
)
    requires
        call_ensures(same_services, (&a, &b), same),
        call_ensures(copy_services, (&a,), copy),
    ensures
        same <==> a@.len() == b@.len() && forall|i: int|
            0 <= i < a@.len() ==> (#[trigger] a@[i]).port == b@[i].port && a@[i].cmd@ == b@[i].cmd@,
        copy@.len() == a@.len(),
        forall|i: int|
            0 <= i < a@.len() ==> (#[trigger] a@[i]).port == copy@[i].port && a@[i].cmd@
                == copy@[i].cmd@,
{
    let x = services_view(a@);
    let y = services_view(b@);
    let z = services_view(copy@);
    assert(x.len() == a@.len() && y.len() == b@.len() && z.len() == copy@.len());
    assert forall|i: int| 0 <= i < a@.len() implies (#[trigger] a@[i]).port == copy@[i].port
        && a@[i].cmd@ == copy@[i].cmd@ by {
        assert(x[i] == z[i]);
    }
    if same {
        assert forall|i: int| 0 <= i < a@.len() implies (#[trigger] a@[i]).port == b@[i].port
            && a@[i].cmd@ == b@[i].cmd@ by {
            assert(x[i] == y[i]);
        }
    }
    if a@.len() == b@.len() && forall|i: int|
        0 <= i < a@.len() ==> (#[trigger] a@[i]).port == b@[i].port && a@[i].cmd@ == b@[i].cmd@ {
        assert forall|i: int| 0 <= i < x.len() implies x[i] == y[i] by {
            assert(a@[i].port == b@[i].port);
        }
        assert(x =~= y);
    }
}

} // verus!
