//! What the loops of a gateway do next, and what they say.

use crate::mesh::{
    handle_data_stream, local_address, local_address_names_its_port, names_local_port, target_port,
    DataTarget, GatewayMsg,
};
use crate::services::ServiceInfo;
use crate::text::{
    after_last, after_last_is_the_end, decimal, decimal_properties, digit, has_prefix, port_number,
    port_text, prefix_and_rest, push_decimal,
};
use vstd::prelude::*;
use vstd::string::*;

verus! {

/// What happened in the control loop of a gateway.
#[derive(Debug)]
pub enum ControlEvent {
    /// The host opened a stream with this header.
    Stream([u8; 2]),
    /// No more streams will be opened.
    Closed,
    /// The user asked to stop.
    Interrupt,
    /// The line of an update was read, with the services that it announces, if it
    /// is an announcement.
    Line(Option<Vec<ServiceInfo>>),
    /// The line of an update could not be read.
    Unread,
    /// What was to be done is done.
    Done,
}

/// What the gateway does next.
#[derive(Debug)]
pub enum ControlAction {
    /// Wait for the next stream and read its header.
    Accept,
    /// Read the line of an update from what follows the header.
    ReadUpdate,
    /// Connect what follows the header to this target.
    ConnectData(DataTarget),
    /// Let the open ports take the line.
    Apply(Option<Vec<ServiceInfo>>),
    /// Stop all listeners.
    Stop,
}

/// A stream with the control port in its header brings an update, any other one
/// data for the port in the header. A line that cannot be read ends the loop, one
/// that is no announcement does not.
pub fn control_step(event: ControlEvent) -> (r: ControlAction)
    ensures
        match event {
            ControlEvent::Stream(header) => match target_port(header@) {
                Some(port) => r matches ControlAction::ConnectData(t) && t.port == port && t.address@
                    == local_address(port),
                None => r is ReadUpdate,
            },
            ControlEvent::Closed => r is Stop,
            ControlEvent::Interrupt => r is Stop,
            ControlEvent::Line(announced) => r == ControlAction::Apply(announced),
            ControlEvent::Unread => r is Stop,
            ControlEvent::Done => r is Accept,
        },
{
    match event {
        ControlEvent::Stream(header) => match handle_data_stream(&header) {
            Some(target) => ControlAction::ConnectData(target),
            None => ControlAction::ReadUpdate,
        },
        ControlEvent::Closed => ControlAction::Stop,
        ControlEvent::Interrupt => ControlAction::Stop,
        ControlEvent::Line(announced) => ControlAction::Apply(announced),
        ControlEvent::Unread => ControlAction::Stop,
        ControlEvent::Done => ControlAction::Accept,
    }
}

/// The address to resolve for the address that a gateway binds: any port.
pub fn bind_target(bind_ip: &str) -> (r: String)
    ensures
        r@ == bind_ip@ + ":0"@,
{
    bind_ip.to_string().concat(":0")
}

/// Why a gateway has no address to bind.
#[derive(Debug, Clone, Copy, PartialEq, Eq, Structural)]
pub enum BindError {
    /// The address that was asked for cannot be resolved.
    Invalid,
    /// It resolves to no address at all.
    NoAddress,
}

impl BindError {
    /// What to say of the failure.
    pub fn message(&self) -> (r: &'static str)
        ensures
            r@ == match *self {
                BindError::Invalid => "invalid bind-ip"@,
                BindError::NoAddress => "no address resolved"@,
            },
    {
        match self {
            BindError::Invalid => "invalid bind-ip",
            BindError::NoAddress => "no address resolved",
        }
    }
}

/// The address to bind of those resolved: the first.
pub open spec fn first_address<A>(resolved: Option<Seq<A>>) -> Result<A, BindError> {
    match resolved {
        None => Err(BindError::Invalid),
        Some(all) => if all.len() == 0 {
            Err(BindError::NoAddress)
        } else {
            Ok(all[0])
        },
    }
}

/// The address to bind of those resolved.
pub fn bind_address<A>(resolved: Option<Vec<A>>) -> (r: Result<A, BindError>)
    ensures
        r == first_address(
            match resolved {
                Some(all) => Some(all@),
                None => None,
            },
        ),
{
    match resolved {
        None => Err(BindError::Invalid),
        Some(mut all) => {
            if all.len() == 0 {
                return Err(BindError::NoAddress);
            }
            Ok(all.remove(0))
        },
    }
}

/// How far the start of a gateway has come.
#[derive(Debug, Clone, Copy, PartialEq, Eq, Structural)]
pub enum Gateway {
    /// The host is being connected to.
    Connecting,
    /// The control stream is being opened.
    Opening,
    /// The subscription is being sent.
    Subscribing,
    /// The address to bind is being resolved.
    Binding,
    /// The ports are managed, or the start failed.
    Over,
}

/// What happened while a gateway starts.
#[derive(Debug)]
pub enum GatewayEvent<A> {
    /// The present step was done, or could not be.
    Done(bool),
    /// The addresses that were resolved, if it was possible.
    Resolved(Option<Vec<A>>),
}

/// Why a gateway did not start.
#[derive(Debug, Clone, Copy, PartialEq, Eq, Structural)]
pub enum GatewayError {
    /// The host was not connected to.
    Connect,
    /// The control stream was not opened.
    Open,
    /// The subscription was not sent.
    Subscribe,
    /// There is no address to bind.
    Bind(BindError),
}

impl GatewayError {
    /// What to say of the failure, besides its cause.
    pub fn message(&self) -> (r: Option<&'static str>)
        ensures
            match *self {
                GatewayError::Connect => r matches Some(s) && s@ == "connect to host"@,
                GatewayError::Open => r matches Some(s) && s@ == "open control bi"@,
                GatewayError::Subscribe => r is None,
                GatewayError::Bind(BindError::Invalid) => r matches Some(s) && s@
                    == "invalid bind-ip"@,
                GatewayError::Bind(BindError::NoAddress) => r matches Some(s) && s@
                    == "no address resolved"@,
            },
    {
        match self {
            GatewayError::Connect => Some("connect to host"),
            GatewayError::Open => Some("open control bi"),
            GatewayError::Subscribe => None,
            GatewayError::Bind(e) => Some(e.message()),
        }
    }
}

/// What the gateway does next.
#[derive(Debug)]
pub enum GatewayAction<A> {
    /// Open the control stream.
    Open,
    /// Send this message on it.
    Send(GatewayMsg),
    /// Resolve the address to bind.
    Resolve,
    /// Manage the ports on this address.
    Manage(A),
    /// Give up.
    Fail(GatewayError),
}

/// The start of a gateway: connect to the host, open the control stream,
/// subscribe, resolve the address to bind, then manage the ports. The first
/// failure ends it.
pub open spec fn started<A>(g: Gateway, e: GatewayEvent<A>) -> (Gateway, GatewayAction<A>) {
    match (g, e) {
        (Gateway::Connecting, GatewayEvent::Done(true)) => (Gateway::Opening, GatewayAction::Open),
        (Gateway::Opening, GatewayEvent::Done(true)) => (
            Gateway::Subscribing,
            GatewayAction::Send(GatewayMsg::Subscribe),
        ),
        (Gateway::Subscribing, GatewayEvent::Done(true)) => (
            Gateway::Binding,
            GatewayAction::Resolve,
        ),
        (Gateway::Binding, GatewayEvent::Resolved(resolved)) => {
            let all = match resolved {
                Some(v) => Some(v@),
                None => None,
            };
            match first_address(all) {
                Ok(a) => (Gateway::Over, GatewayAction::Manage(a)),
                Err(b) => (Gateway::Over, GatewayAction::Fail(GatewayError::Bind(b))),
            }
        },
        (Gateway::Connecting, _) => (Gateway::Over, GatewayAction::Fail(GatewayError::Connect)),
        (Gateway::Opening, _) => (Gateway::Over, GatewayAction::Fail(GatewayError::Open)),
        (Gateway::Subscribing, _) => (Gateway::Over, GatewayAction::Fail(GatewayError::Subscribe)),
        _ => (Gateway::Over, GatewayAction::Fail(GatewayError::Bind(BindError::Invalid))),
    }
}

/// Where the start of a gateway stands after some events.
pub open spec fn started_after<A>(events: Seq<GatewayEvent<A>>) -> Gateway
    decreases events.len(),
{
    if events.len() == 0 {
        Gateway::Connecting
    } else {
        started(started_after(events.drop_last()), events.last()).0
    }
}

/// A gateway manages ports only after it connected to the host, opened the
/// control stream and subscribed, and on the first address resolved.
pub proof fn managed_after_subscription<A>(
    events: Seq<GatewayEvent<A>>,
    e: GatewayEvent<A>,
    address: A,
)
    requires
        started(started_after(events), e).1 == GatewayAction::Manage(address),
    ensures
        events.len() == 3,
        forall|i: int| 0 <= i < 3 ==> #[trigger] events[i] == GatewayEvent::<A>::Done(true),
        e matches GatewayEvent::Resolved(Some(all)) && all@.len() > 0 && all@[0] == address,
{
    let two = events.drop_last();
    let one = two.drop_last();
    let none = one.drop_last();
    assert(started_after(events) == Gateway::Binding);
    assert(started_after(two) == Gateway::Subscribing);
    assert(started_after(one) == Gateway::Opening);
    assert(started_after(none) == Gateway::Connecting);
    if none.len() > 0 {
        assert(started_after(none) == started(started_after(none.drop_last()), none.last()).0);
    }
    assert(events[2] == events.last() && events[1] == two.last() && events[0] == one.last());
}

impl Gateway {
    /// A gateway that starts.
    pub fn new() -> (r: Gateway)
        ensures
            r == Gateway::Connecting,
    {
        Gateway::Connecting
    }

    /// Takes what happened and says what to do next.
    pub fn run_gateway<A>(&mut self, event: GatewayEvent<A>) -> (r: GatewayAction<A>)
        ensures
            (*final(self), r) == started(*old(self), event),
    {
        let (next, action) = match (*self, event) {
            (Gateway::Connecting, GatewayEvent::Done(true)) => (
                Gateway::Opening,
                GatewayAction::Open,
            ),
            (Gateway::Connecting, _) => (
                Gateway::Over,
                GatewayAction::Fail(GatewayError::Connect),
            ),
            (Gateway::Opening, GatewayEvent::Done(true)) => (
                Gateway::Subscribing,
                GatewayAction::Send(GatewayMsg::Subscribe),
            ),
            (Gateway::Opening, _) => (Gateway::Over, GatewayAction::Fail(GatewayError::Open)),
            (Gateway::Subscribing, GatewayEvent::Done(true)) => (
                Gateway::Binding,
                GatewayAction::Resolve,
            ),
            (Gateway::Subscribing, _) => (
                Gateway::Over,
                GatewayAction::Fail(GatewayError::Subscribe),
            ),
            (Gateway::Binding, GatewayEvent::Resolved(resolved)) => match bind_address(resolved) {
                Ok(address) => (Gateway::Over, GatewayAction::Manage(address)),
                Err(e) => (Gateway::Over, GatewayAction::Fail(GatewayError::Bind(e))),
            },
            _ => (
                Gateway::Over,
                GatewayAction::Fail(GatewayError::Bind(BindError::Invalid)),
            ),
        };
        *self = next;
        action
    }
}

/// What happened at the listener of a port.
#[derive(Debug, Clone, Copy, PartialEq, Eq, Structural)]
pub enum ListenerEvent {
    /// The port was opened, or could not be.
    Bound(bool),
    /// A connection was accepted, or could not be.
    Accepted(bool),
}

/// What the listener does next.
#[derive(Debug, Clone, Copy, PartialEq, Eq, Structural)]
pub enum ListenerAction {
    /// Accept a connection.
    Accept,
    /// Forward the connection, and accept the next one.
    Forward,
    /// Give the port up.
    Stop,
}

/// A port that cannot be opened is given up; one that is open accepts connections
/// without end, and passes over those that fail.
pub fn listener_step(event: ListenerEvent) -> (r: ListenerAction)
    ensures
        r == (match event {
            ListenerEvent::Bound(true) => ListenerAction::Accept,
            ListenerEvent::Bound(false) => ListenerAction::Stop,
            ListenerEvent::Accepted(true) => ListenerAction::Forward,
            ListenerEvent::Accepted(false) => ListenerAction::Accept,
        }),
{
    match event {
        ListenerEvent::Bound(true) => ListenerAction::Accept,
        ListenerEvent::Bound(false) => ListenerAction::Stop,
        ListenerEvent::Accepted(true) => ListenerAction::Forward,
        ListenerEvent::Accepted(false) => ListenerAction::Accept,
    }
}

/// What to say when a port was opened.
pub fn opened_line(port: u16, ip: &str) -> (r: String)
    ensures
        r@ == "+ "@ + decimal(port as nat) + " on "@ + ip@ + ":"@ + decimal(port as nat),
{
    let mut out = "+ ".to_string();
    push_decimal(&mut out, port as u64);
    out.append(" on ");
    out.append(ip);
    out.append(":");
    push_decimal(&mut out, port as u64);
    out
}

/// What to say when a port could not be opened.
pub fn bind_failed_line(port: u16, ip: &str, error: &str) -> (r: String)
    ensures
        r@ == "! "@ + decimal(port as nat) + " failed to bind "@ + ip@ + ":"@ + decimal(port as nat)
            + ": "@ + error@,
{
    let mut out = "! ".to_string();
    push_decimal(&mut out, port as u64);
    out.append(" failed to bind ");
    out.append(ip);
    out.append(":");
    push_decimal(&mut out, port as u64);
    out.append(": ");
    out.append(error);
    out
}

/// What to say when a port was closed.
pub fn removed_line(port: u16) -> (r: String)
    ensures
        r@ == "- "@ + decimal(port as nat) + " (removed)"@,
{
    let mut out = "- ".to_string();
    push_decimal(&mut out, port as u64);
    out.append(" (removed)");
    out
}

/// A stream with a header of zeros brings an update; any other one is connected to the
/// port that the header names. A line is handed on as it is, whether it is an
/// announcement or not, and the loop goes on; it ends where a line cannot be read, no
/// stream will come, or the user asks.
pub proof fn control_acts(event: ControlEvent, r: ControlAction)
    requires
        call_ensures(control_step, (event,), r),
    ensures
        event matches ControlEvent::Stream(header) ==> {
            &&& r is ReadUpdate || r is ConnectData
            &&& r is ReadUpdate <==> header@[0] == 0 && header@[1] == 0
            &&& r matches ControlAction::ConnectData(target) ==> target.port == header@[0] * 256
                + header@[1] && names_local_port(target.address@, target.port)
        },
        event matches ControlEvent::Line(announced) ==> r == ControlAction::Apply(announced),
        r is Accept <==> event is Done,
        r is Apply <==> event is Line,
        r is Stop <==> event is Closed || event is Interrupt || event is Unread,
{
    if r is ConnectData {
        local_address_names_its_port(r->ConnectData_0.port, r->ConnectData_0.port);
    }
}

/// The address to bind is the first of those resolved; it fails exactly where none
/// could be resolved or there is none.
pub proof fn first_address_is_bound<A>(resolved: Option<Vec<A>>, r: Result<A, BindError>)
    requires
        call_ensures(bind_address, (resolved,), r),
    ensures
        r is Ok <==> resolved is Some && resolved->0@.len() > 0,
        r is Ok ==> r->Ok_0 == resolved->0@[0],
        r == Err::<A, BindError>(BindError::Invalid) <==> resolved is None,
        r == Err::<A, BindError>(BindError::NoAddress) <==> resolved is Some
            && resolved->0@.len() == 0,
{
}

/// What is resolved is the address that was asked for with the port zero.
pub proof fn bind_target_has_any_port(bind_ip: &str, r: String)
    requires
        call_ensures(bind_target, (bind_ip,), r),
    ensures
        r@.len() == bind_ip@.len() + 2,
        r@.take(bind_ip@.len() as int) == bind_ip@,
        r@[bind_ip@.len() as int] == ':',
        r@[bind_ip@.len() as int + 1] == '0',
{
    reveal_strlit(":0");
    assert(r@.take(bind_ip@.len() as int) =~= bind_ip@);
}

/// What a gateway does at its start, and when: it opens the control stream exactly
/// once it is connected, subscribes exactly once that is open, resolves exactly once
/// it subscribed, and manages ports exactly on the first address that was resolved
/// then. Anything else ends the start, with the step that failed.
pub proof fn gateway_acts<A>(g: &mut Gateway, e: GatewayEvent<A>, r: GatewayAction<A>)
    requires
        call_ensures(Gateway::run_gateway::<A>, (g, e), r),
    ensures
        r is Open <==> *old(g) is Connecting && e == GatewayEvent::<A>::Done(true),
        r is Send <==> *old(g) is Opening && e == GatewayEvent::<A>::Done(true),
        r is Resolve <==> *old(g) is Subscribing && e == GatewayEvent::<A>::Done(true),
        r is Manage <==> *old(g) is Binding && (e matches GatewayEvent::Resolved(Some(all))
            && all@.len() > 0),
        r is Manage ==> r->Manage_0 == e->Resolved_0->0@[0],
        r is Open <==> *final(g) is Opening,
        r is Send <==> *final(g) is Subscribing,
        r is Resolve <==> *final(g) is Binding,
        r is Manage || r is Fail <==> *final(g) is Over,
        r matches GatewayAction::Fail(why) ==> {
            &&& why is Connect <==> *old(g) is Connecting
            &&& why is Open <==> *old(g) is Opening
            &&& why is Subscribe <==> *old(g) is Subscribing
            &&& why is Bind <==> *old(g) is Binding || *old(g) is Over
            &&& why == GatewayError::Bind(BindError::NoAddress) <==> *old(g) is Binding && (
            e matches GatewayEvent::Resolved(Some(all)) && all@.len() == 0)
        },
{
}

/// A gateway that connected, opened the control stream, subscribed and resolved some
/// addresses manages ports on the first of them.
pub proof fn subscribed_gateway_manages<A>(all: Vec<A>)
    requires
        all@.len() > 0,
    ensures
        ({
            let done = GatewayEvent::<A>::Done(true);
            let g = started_after(seq![done, done, done]);
            started(g, GatewayEvent::Resolved(Some(all))).1 == GatewayAction::Manage(all@[0])
        }),
{
    let done = GatewayEvent::<A>::Done(true);
    let three = seq![done, done, done];
    let two = seq![done, done];
    let one = seq![done];
    assert(three.drop_last() =~= two);
    assert(two.drop_last() =~= one);
    assert(one.drop_last() =~= Seq::<GatewayEvent<A>>::empty());
    assert(started_after(Seq::<GatewayEvent<A>>::empty()) == Gateway::Connecting);
    assert(started_after(one) == Gateway::Opening);
    assert(started_after(two) == Gateway::Subscribing);
    assert(started_after(three) == Gateway::Binding);
}

/// A listener forwards every connection that it accepts and stops only where its port
/// cannot be opened.
pub proof fn listener_acts(event: ListenerEvent, r: ListenerAction)
    requires
        call_ensures(listener_step, (event,), r),
    ensures
        r is Stop <==> event == ListenerEvent::Bound(false),
        r is Forward <==> event == ListenerEvent::Accepted(true),
        r is Accept <==> event == ListenerEvent::Bound(true) || event == ListenerEvent::Accepted(
            false,
        ),
{
}

/// What is said of a port begins with what happened and the port; where it was opened,
/// it ends in a colon and the port.
pub proof fn lines_name_the_port(
    port: u16,
    ip: &str,
    error: &str,
    opened: String,
    failed: String,
    removed: String,
)
    requires
        call_ensures(opened_line, (port, ip), opened),
        call_ensures(bind_failed_line, (port, ip, error), failed),
        call_ensures(removed_line, (port,), removed),
    ensures
        has_prefix(opened@, "+ "@ + decimal(port as nat) + " on "@ + ip@),
        port_number(after_last(opened@, ':')) == Some(port),
        has_prefix(failed@, "! "@ + decimal(port as nat) + " failed to bind "@ + ip@),
        failed@.skip(failed@.len() - error@.len()) == error@,
        has_prefix(removed@, "- "@ + decimal(port as nat)),
{
    reveal_strlit(":");
    reveal_strlit(": ");
    let end = decimal(port as nat);
    decimal_properties(port as nat);
    assert forall|i: int| 0 <= i < end.len() implies end[i] != ':' by {
        assert(digit(end[i]));
    }
    let head = "+ "@ + end + " on "@ + ip@;
    assert(":"@ =~= seq![':']);
    assert(opened@ =~= head + seq![':'] + end);
    after_last_is_the_end(head, ':', end);
    port_text(end, end, port);
    prefix_and_rest(head, head, seq![':'] + end);
    assert(opened@ =~= head + (seq![':'] + end));
    let start = "! "@ + end + " failed to bind "@ + ip@;
    let tail = ":"@ + end + ": "@ + error@;
    assert(failed@ =~= start + tail);
    prefix_and_rest(start, start, tail);
    assert(failed@.skip(failed@.len() - error@.len()) =~= error@);
    prefix_and_rest("- "@ + end, "- "@ + end, " (removed)"@);
}

} // verus!
