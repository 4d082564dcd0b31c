//! A host: the services that it knows, what its loops do next, and what it says.

use crate::mesh::{
    session, update_bytes, update_stream, GatewayMsg, HostArgs, HostMsg, Session, SessionEvent,
    SessionStep,
};
use crate::services::{services_entry_by_entry, services_view, Service, ServiceInfo};
use crate::text::{
    decimal, decimal_properties, digit, find, find_unique, has_prefix, port_number, port_text,
    prefix_and_rest, push_decimal, strings_view,
};
use crate::watch::{
    copy_services, publishes, remembered, remembered_after, same_services, PortWatcher,
};
use vstd::prelude::*;
use vstd::string::*;
use vstd::utf8::encode_utf8;

verus! {

/// A host, which accepts connections until it is stopped, and knows the services
/// that the last scan found. Its watcher has seen the scans since the start only.
#[derive(Debug)]
pub struct Host {
    running: bool,
    known: Vec<ServiceInfo>,
    ports: PortWatcher,
}

/// What happened in the main loop of a host.
#[derive(Debug, Clone, Copy, PartialEq, Eq, Structural)]
pub enum HostEvent {
    /// A gateway connected.
    Connected,
    /// A connection could not be completed.
    ConnectFailed,
    /// No more connections will come in.
    EndpointClosed,
    /// The user asked to stop.
    Interrupt,
}

/// What the host does next.
#[derive(Debug, Clone, Copy, PartialEq, Eq, Structural)]
pub enum HostAction {
    /// Begin a session with the gateway.
    Serve,
    /// Wait for the next connection.
    Wait,
    /// Leave the loop.
    Stop,
}

/// The course of a host: it serves gateways until no more connections come in or
/// the user asks to stop. A connection that fails is passed over.
pub open spec fn hosted(running: bool, e: HostEvent) -> (bool, HostAction) {
    match e {
        HostEvent::Connected if running => (true, HostAction::Serve),
        HostEvent::ConnectFailed if running => (true, HostAction::Wait),
        _ => (false, HostAction::Stop),
    }
}

/// Whether a scan is published by a host that knows some services and whose
/// watcher remembers others: the watcher publishes it, or it differs from what a
/// gateway was told that subscribed before.
pub open spec fn updates(
    known: Seq<Service>,
    watched: Seq<Service>,
    scan: Option<Seq<Service>>,
) -> bool {
    publishes(watched, scan) || publishes(known, scan)
}

/// What such a host publishes of some scans, in order.
pub open spec fn all_updates(
    known: Seq<Service>,
    watched: Seq<Service>,
    scans: Seq<Option<Seq<Service>>>,
) -> Seq<Seq<Service>>
    decreases scans.len(),
{
    if scans.len() == 0 {
        seq![]
    } else {
        let before = scans.drop_last();
        let earlier = all_updates(known, watched, before);
        if updates(
            remembered_after(known, before),
            remembered_after(watched, before),
            scans.last(),
        ) {
            earlier.push(scans.last()->0)
        } else {
            earlier
        }
    }
}

/// What a gateway is told that subscribes now.
pub open spec fn told(known: Seq<Service>) -> SessionStep {
    session(Session::Subscribing, SessionEvent::Heard(Some(GatewayMsg::Subscribe)), known).1
}

/// A gateway that subscribes is told what the last scan that succeeded found, the
/// scan at the start being the first.
pub proof fn subscriber_is_told_last_scan(
    initial: Seq<Service>,
    scans: Seq<Option<Seq<Service>>>,
    k: int,
)
    requires
        -1 <= k < scans.len(),
        k >= 0 ==> scans[k] is Some,
        forall|i: int| k < i < scans.len() ==> #[trigger] scans[i] is None,
    ensures
        told(remembered_after(initial, scans)) == SessionStep::Announce(
            if k >= 0 {
                scans[k]->0
            } else {
                initial
            },
        ),
    decreases scans.len(),
{
    if k + 1 < scans.len() {
        let before = scans.drop_last();
        assert(scans[scans.len() - 1] is None);
        assert forall|i: int| k < i < before.len() implies #[trigger] before[i] is None by {
            assert(scans[i] is None);
        }
        subscriber_is_told_last_scan(initial, before, k);
    }
}

/// While the services do not change, every gateway that subscribes is told what
/// the scan at the start found. The first scan after it publishes them once, unless
/// there are none.
pub proof fn unchanged_services_are_told(initial: Seq<Service>, scans: Seq<Option<Seq<Service>>>)
    requires
        forall|i: int| 0 <= i < scans.len() ==> #[trigger] scans[i] == Some(initial),
    ensures
        told(remembered_after(initial, scans)) == SessionStep::Announce(initial),
        all_updates(initial, Seq::empty(), scans) == (if scans.len() == 0 || initial.len() == 0 {
            seq![]
        } else {
            seq![initial]
        }),
    decreases scans.len(),
{
    if scans.len() > 0 {
        let before = scans.drop_last();
        assert forall|i: int| 0 <= i < before.len() implies #[trigger] before[i] == Some(
            initial,
        ) by {
            assert(scans[i] == Some(initial));
        }
        assert(scans[scans.len() - 1] == Some(initial));
        unchanged_services_are_told(initial, before);
        let watched = remembered_after(Seq::empty(), before);
        if before.len() > 0 {
            assert(before[before.len() - 1] == Some(initial));
            assert(watched == initial);
        } else {
            assert(watched == Seq::<Service>::empty());
            assert(initial.len() == 0 ==> initial =~= Seq::<Service>::empty());
        }
        assert(all_updates(initial, Seq::empty(), scans) =~= (if initial.len() == 0 {
            seq![]
        } else {
            seq![initial]
        }));
    }
}

/// A host publishes what its watcher does. It publishes one scan more at most: the
/// first one, where it finds none of the services that the scan at the start found.
pub proof fn published_as_watched(
    initial: Seq<Service>,
    scans: Seq<Option<Seq<Service>>>,
    scan: Option<Seq<Service>>,
)
    ensures
        ({
            let known = remembered_after(initial, scans);
            let watched = remembered_after(Seq::empty(), scans);
            updates(known, watched, scan) <==> publishes(watched, scan) || {
                &&& forall|i: int| 0 <= i < scans.len() ==> #[trigger] scans[i] is None
                &&& scan == Some(Seq::<Service>::empty())
                &&& initial != Seq::<Service>::empty()
            }
        }),
{
    known_and_watched(initial, scans);
}

/// What a host knows and what its watcher remembers are the same once a scan since
/// the start succeeded; before, they are what each began with.
proof fn known_and_watched(initial: Seq<Service>, scans: Seq<Option<Seq<Service>>>)
    ensures
        if forall|i: int| 0 <= i < scans.len() ==> #[trigger] scans[i] is None {
            &&& remembered_after(initial, scans) == initial
            &&& remembered_after(Seq::empty(), scans) == Seq::<Service>::empty()
        } else {
            remembered_after(initial, scans) == remembered_after(Seq::empty(), scans)
        },
    decreases scans.len(),
{
    if scans.len() > 0 {
        let before = scans.drop_last();
        known_and_watched(initial, before);
        assert forall|i: int| 0 <= i < before.len() implies #[trigger] before[i] == scans[i] by {
        }
        if scans.last() is None {
            assert(scans[scans.len() - 1] is None);
            if forall|i: int| 0 <= i < before.len() ==> #[trigger] before[i] is None {
                assert forall|i: int| 0 <= i < scans.len() implies #[trigger] scans[i] is None by {
                    if i < before.len() {
                        assert(before[i] is None);
                    }
                }
            } else {
                let i = choose|i: int| 0 <= i < before.len() && #[trigger] before[i] is Some;
                assert(scans[i] is Some);
            }
        } else {
            assert(scans[scans.len() - 1] is Some);
        }
    }
}

/// A gateway that takes what it was told when it subscribed and then each
/// publication knows what the host knows.
pub proof fn subscriber_keeps_up(
    initial: Seq<Service>,
    before: Seq<Option<Seq<Service>>>,
    later: Seq<Option<Seq<Service>>>,
)
    ensures
        ({
            let reply = remembered_after(initial, before);
            let sent = all_updates(reply, remembered_after(Seq::empty(), before), later);
            &&& told(reply) == SessionStep::Announce(reply)
            &&& remembered_after(initial, before + later) == (if sent.len() == 0 {
                reply
            } else {
                sent.last()
            })
        }),
{
    let reply = remembered_after(initial, before);
    last_update_is_known(reply, remembered_after(Seq::empty(), before), later);
    remembered_in_two_parts(initial, before, later);
}

/// What a host knows is what it last published, or what it knew at first where it
/// published nothing.
proof fn last_update_is_known(
    known: Seq<Service>,
    watched: Seq<Service>,
    scans: Seq<Option<Seq<Service>>>,
)
    ensures
        remembered_after(known, scans) == (if all_updates(known, watched, scans).len() == 0 {
            known
        } else {
            all_updates(known, watched, scans).last()
        }),
    decreases scans.len(),
{
    if scans.len() > 0 {
        last_update_is_known(known, watched, scans.drop_last());
    }
}

/// What is remembered after some scans and then others is what is remembered
/// after all of them.
proof fn remembered_in_two_parts(
    initial: Seq<Service>,
    before: Seq<Option<Seq<Service>>>,
    later: Seq<Option<Seq<Service>>>,
)
    ensures
        remembered_after(initial, before + later) == remembered_after(
            remembered_after(initial, before),
            later,
        ),
    decreases later.len(),
{
    let all = before + later;
    if later.len() == 0 {
        assert(all =~= before);
    } else {
        remembered_in_two_parts(initial, before, later.drop_last());
        assert(all.drop_last() =~= before + later.drop_last());
        assert(all.last() == later.last());
    }
}

impl Host {
    /// The services that the last scan that succeeded found.
    pub closed spec fn latest(&self) -> Seq<Service> {
        services_view(self.known@)
    }

    /// The services that the last scan that succeeded since the start found.
    pub closed spec fn watched(&self) -> Seq<Service> {
        self.ports@
    }

    /// Whether connections are accepted.
    pub closed spec fn is_running(&self) -> bool {
        self.running
    }

    /// A host that starts, with the services that the first scan found.
    pub fn new(_args: HostArgs, initial: Vec<ServiceInfo>) -> (r: Host)
        ensures
            r.is_running(),
            r.latest() == services_view(initial@),
            r.watched() == Seq::<Service>::empty(),
    {
        Host { running: true, known: initial, ports: PortWatcher::new() }
    }

    /// Takes a scan, which may have failed, and gives what is to be published.
    pub fn scanned(&mut self, scan: Option<Vec<ServiceInfo>>) -> (r: Option<Vec<ServiceInfo>>)
        ensures
            ({
                let seen = match scan {
                    Some(current) => Some(services_view(current@)),
                    None => None,
                };
                &&& final(self).latest() == remembered(old(self).latest(), seen)
                &&& final(self).watched() == remembered(old(self).watched(), seen)
                &&& r is Some <==> updates(old(self).latest(), old(self).watched(), seen)
                &&& r is Some ==> services_view(r->0@) == seen->0
                &&& final(self).is_running() == old(self).is_running()
            }),
    {
        match scan {
            Some(current) => {
                let changed = !same_services(&current, &self.known);
                let copy = copy_services(&current);
                self.known = copy_services(&current);
                match self.ports.port_watcher(Some(current)) {
                    Some(services) => Some(services),
                    None => if changed {
                        Some(copy)
                    } else {
                        None
                    },
                }
            },
            None => self.ports.port_watcher(None),
        }
    }

    /// The message to a gateway that subscribes: the services known.
    pub fn subscribed(&self) -> (r: HostMsg)
        ensures
            r matches HostMsg::Services { services } && services_view(services@) == self.latest(),
    {
        HostMsg::Services { services: copy_services(&self.known) }
    }

    /// Takes what happened and says what to do next.
    pub fn run_host(&mut self, event: HostEvent) -> (r: HostAction)
        ensures
            (final(self).is_running(), r) == hosted(old(self).is_running(), event),
            final(self).latest() == old(self).latest(),
            final(self).watched() == old(self).watched(),
    {
        match event {
            HostEvent::Connected if self.running => HostAction::Serve,
            HostEvent::ConnectFailed if self.running => HostAction::Wait,
            _ => {
                self.running = false;
                HostAction::Stop
            },
        }
    }
}

/// What happened while a host sends updates to a gateway.
#[derive(Debug)]
pub enum UpdateEvent {
    /// Services were published.
    Published(Vec<ServiceInfo>),
    /// The message was turned into text.
    Encoded(String),
    /// The text was sent on a stream of its own.
    Sent,
    /// Any of that failed, or nothing more will be published.
    Failed,
}

/// What the host does next.
#[derive(Debug)]
pub enum UpdateAction {
    /// Turn the message into text.
    Encode(HostMsg),
    /// Open a stream and send these bytes.
    Send(Vec<u8>),
    /// Wait for services to be published.
    Receive,
    /// Send no more updates.
    Stop,
}

/// Published services are announced on a control stream each; the first failure
/// ends the updates.
pub fn update_step(event: UpdateEvent) -> (r: UpdateAction)
    ensures
        match event {
            UpdateEvent::Published(services) => r == UpdateAction::Encode(
                HostMsg::Services { services },
            ),
            UpdateEvent::Encoded(text) => r matches UpdateAction::Send(bytes) && bytes@
                == update_stream(text@),
            UpdateEvent::Sent => r is Receive,
            UpdateEvent::Failed => r is Stop,
        },
{
    match event {
        UpdateEvent::Published(services) => UpdateAction::Encode(HostMsg::Services { services }),
        UpdateEvent::Encoded(text) => UpdateAction::Send(update_bytes(text.as_str())),
        UpdateEvent::Sent => UpdateAction::Receive,
        UpdateEvent::Failed => UpdateAction::Stop,
    }
}

/// The lines that report services: their number, then one line for each.
pub open spec fn report(services: Seq<Service>) -> Seq<Seq<char>> {
    seq!["discovered "@ + decimal(services.len()) + " services:"@] + services.map_values(
        |s: Service| "  "@ + decimal(s.port as nat) + " ("@ + s.cmd + ")"@,
    )
}

/// The lines that report services.
pub fn service_report(services: &Vec<ServiceInfo>) -> (r: Vec<String>)
    ensures
        strings_view(r@) == report(services_view(services@)),
{
    let ghost all = report(services_view(services@));
    let mut r: Vec<String> = Vec::new();
    let mut head = "discovered ".to_string();
    push_decimal(&mut head, services.len() as u64);
    head.append(" services:");
    r.push(head);
    assert(strings_view(r@) =~= all.take(1));
    for i in 0..services.len()
        invariant
            all == report(services_view(services@)),
            strings_view(r@) == all.take(i + 1),
    {
        let ghost before = strings_view(r@);
        let s = &services[i];
        let mut line = "  ".to_string();
        push_decimal(&mut line, s.port as u64);
        line.append(" (");
        line.append(s.cmd.as_str());
        line.append(")");
        let ghost text = line@;
        r.push(line);
        assert(services_view(services@)[i as int] == s@);
        assert(text == all[i + 1]);
        assert(strings_view(r@) =~= before.push(text));
        assert(all.take(i + 2) =~= all.take(i + 1).push(all[i + 1]));
    }
    assert(all.take(all.len() as int) =~= all);
    r
}

/// What a host does, and when: while it runs it serves each gateway that connects and
/// passes over each that fails to; it stops exactly on anything else. What it knows
/// does not change by that.
pub proof fn host_acts(host: &mut Host, e: HostEvent, r: HostAction)
    requires
        call_ensures(Host::run_host, (host, e), r),
    ensures
        r is Serve <==> old(host).is_running() && e is Connected,
        r is Wait <==> old(host).is_running() && e is ConnectFailed,
        r is Stop <==> !final(host).is_running(),
        final(host).latest() == old(host).latest(),
{
}

/// A host that starts runs and knows what the first scan found, entry by entry, and
/// tells a gateway that subscribes what it knows.
pub proof fn host_tells_what_it_knows(
    args: HostArgs,
    initial: Vec<ServiceInfo>,
    host: Host,
    r: HostMsg,
    i: int,
)
    requires
        call_ensures(Host::new, (args, initial), host),
        call_ensures(Host::subscribed, (&host,), r),
    ensures
        host.is_running(),
        r matches HostMsg::Services { services } && services@.len() == initial@.len() && (0 <= i
            < initial@.len() ==> services@[i].port == initial@[i].port && services@[i].cmd@
            == initial@[i].cmd@),
{
    let services = r->services;
    services_entry_by_entry(services@, i);
    services_entry_by_entry(initial@, i);
}

/// A scan that failed changes and publishes nothing. One that succeeded is what the
/// host knows from then on, and what gateways are told; it is published, all of it,
/// unless it is what the host knew and what was published last.
pub proof fn scan_is_known(
    host: &mut Host,
    scan: Option<Vec<ServiceInfo>>,
    r: Option<Vec<ServiceInfo>>,
)
    requires
        call_ensures(Host::scanned, (host, scan), r),
    ensures
        scan is None ==> r is None && final(host).latest() == old(host).latest(),
        scan matches Some(current) ==> {
            let found = services_view(current@);
            &&& final(host).latest() == found
            &&& final(host).watched() == found
            &&& r is None <==> found == old(host).latest() && found == old(host).watched()
            &&& r matches Some(told) ==> services_view(told@) == found
        },
        final(host).is_running() == old(host).is_running(),
{
}

/// Published services are announced as they are, each on a stream that begins with two
/// zero bytes and ends in a newline; updates go on until something fails.
pub proof fn update_acts(event: UpdateEvent, r: UpdateAction)
    requires
        call_ensures(update_step, (event,), r),
    ensures
        event matches UpdateEvent::Published(services) ==> r == UpdateAction::Encode(
            HostMsg::Services { services },
        ),
        event matches UpdateEvent::Encoded(text) ==> (r matches UpdateAction::Send(bytes) && bytes@
            == seq![0u8, 0u8] + encode_utf8(text@) + seq![10u8]),
        r is Receive <==> event is Sent,
        r is Stop <==> event is Failed,
{
    if let UpdateEvent::Encoded(text) = event {
        assert(r->Send_0@ =~= seq![0u8, 0u8] + encode_utf8(text@) + seq![10u8]);
    }
}

/// The report of services has a line with their number and one for each, which names
/// its port and its command.
pub proof fn report_names_every_service(services: Vec<ServiceInfo>, r: Vec<String>, i: int)
    requires
        call_ensures(service_report, (&services,), r),
        0 <= i < services@.len(),
    ensures
        r@.len() == services@.len() + 1,
        has_prefix(r@[0]@, "discovered "@ + decimal(services@.len()) + " "@),
        ({
            let line = r@[i + 1]@;
            let rest = line.skip(2);
            let k = find(rest, ' ') as int;
            &&& has_prefix(line, "  "@)
            &&& port_number(rest.take(k)) == Some(services@[i].port)
            &&& rest.skip(k) == " ("@ + services@[i].cmd@ + ")"@
        }),
{
    let s = services@[i];
    let all = strings_view(r@);
    let lines = report(services_view(services@));
    services_entry_by_entry(services@, i);
    assert(all.len() == r@.len());
    assert(all[0] == r@[0]@ && all[i + 1] == r@[i + 1]@);
    assert(lines[i + 1] == "  "@ + decimal(s.port as nat) + " ("@ + s.cmd@ + ")"@);
    reveal_strlit(" services:");
    reveal_strlit(" ");
    reveal_strlit("  ");
    reveal_strlit(" (");
    let head = "discovered "@ + decimal(services@.len()) + " "@;
    let more = " services:"@.skip(1);
    assert(r@[0]@ =~= head + more);
    prefix_and_rest(head, head, more);
    let digits = decimal(s.port as nat);
    let end = " ("@ + s.cmd@ + ")"@;
    let rest = digits + end;
    let line = r@[i + 1]@;
    assert(line =~= "  "@ + rest);
    prefix_and_rest("  "@, "  "@, rest);
    assert(line.skip(2) =~= rest);
    decimal_properties(s.port as nat);
    assert forall|j: int| 0 <= j < digits.len() implies rest[j] != ' ' by {
        assert(digit(digits[j]));
    }
    find_unique(rest, ' ', digits.len() as int);
    assert(rest.take(digits.len() as int) =~= digits);
    assert(rest.skip(digits.len() as int) =~= end);
    port_text(digits, digits, s.port);
}

} // verus!
