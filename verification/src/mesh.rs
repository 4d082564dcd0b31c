//! The service mesh: messages between host and gateway, the streams that they
//! open, and what each side does next.

use crate::host::Host;
use crate::line::{line_bytes, message_line, read_lines, written_line_is_read_back};
use crate::services::{services_view, Service, ServiceInfo};
use crate::text::{
    after_last, after_last_is_the_end, all_digits, decimal, decimal_properties, digit, has_prefix,
    port_number, port_text, prefix_and_rest, push_decimal, value,
};
use vstd::prelude::*;
use vstd::string::*;
use vstd::utf8::encode_utf8;

verus! {

/// The port number that marks a control stream.
pub const CONTROL_PORT: u16 = 0;

/// Number of bytes of the header of a stream.
pub const PORT_LEN: usize = 2;

/// A message of the host to the gateway.
#[derive(Debug, Clone, PartialEq, Eq)]
pub enum HostMsg {
    /// The services that the host offers.
    Services { services: Vec<ServiceInfo> },
}

/// A message of the gateway to the host.
#[derive(Debug, Clone, Copy, PartialEq, Eq, Structural)]
pub enum GatewayMsg {
    /// The gateway asks for the services and their changes.
    Subscribe,
}

/// What the host is started with.
#[derive(Debug, Clone, Copy, PartialEq, Eq, Structural)]
pub struct HostArgs {}

/// Two bytes of a port number, the more significant first.
pub open spec fn port_header(port: u16) -> Seq<u8> {
    seq![(port / 0x100) as u8, (port % 0x100) as u8]
}

/// The port number in two bytes.
pub open spec fn header_port(b: Seq<u8>) -> u16 {
    (b[0] * 0x100 + b[1]) as u16
}

/// The local address of a port of the host.
pub open spec fn local_address(port: u16) -> Seq<char> {
    "127.0.0.1:"@ + decimal(port as nat)
}

/// The bytes of an update stream: the header of a control stream and the message.
pub open spec fn update_stream(text: Seq<char>) -> Seq<u8> {
    port_header(CONTROL_PORT) + line_bytes(text)
}

/// The header of a stream gives the port back, and the other way round.
pub proof fn port_header_round_trip(port: u16, b: Seq<u8>)
    requires
        b.len() == PORT_LEN,
    ensures
        port_header(port).len() == PORT_LEN,
        header_port(port_header(port)) == port,
        port_header(header_port(b)) == b,
{
    let v = b[0] as nat * 0x100 + b[1] as nat;
    assert(header_port(b) == v);
    assert(v / 0x100 == b[0] && v % 0x100 == b[1]);
    assert(port_header(header_port(b)) =~= b);
}

/// The port of the host that a stream with some header is connected to; none
/// for a control stream.
pub open spec fn target_port(header: Seq<u8>) -> Option<u16> {
    if header_port(header) == CONTROL_PORT {
        None
    } else {
        Some(header_port(header))
    }
}

/// A connection that the gateway accepts on a port is connected to the same port
/// of the host, and one on the control port to none.
pub proof fn connection_reaches_its_port(port: u16)
    ensures
        target_port(port_header(port)) == (if port == CONTROL_PORT {
            None
        } else {
            Some(port)
        }),
{
    port_header_round_trip(port, port_header(port));
}

/// A stream that carries the data of a port is connected to that port, and what
/// the port receives is all that follows the header, which is read once.
pub proof fn data_reaches_its_port(port: u16, data: Seq<u8>)
    requires
        port != CONTROL_PORT,
    ensures
        ({
            let stream = port_header(port) + data;
            &&& target_port(stream.take(PORT_LEN as int)) == Some(port)
            &&& stream.skip(PORT_LEN as int) == data
        }),
{
    let stream = port_header(port) + data;
    connection_reaches_its_port(port);
    assert(stream.take(PORT_LEN as int) =~= port_header(port));
    assert(stream.skip(PORT_LEN as int) =~= data);
}

/// An update is recognised as a control stream, and behind the header its
/// message is read back, as long as the text holds no newline.
pub proof fn update_is_read_back(text: Seq<char>)
    requires
        forall|i: int| 0 <= i < text.len() ==> text[i] != '\n',
    ensures
        header_port(update_stream(text).take(PORT_LEN as int)) == CONTROL_PORT,
        read_lines(seq![], update_stream(text).skip(PORT_LEN as int)) == seq![Some(text)],
{
    let s = update_stream(text);
    port_header_round_trip(CONTROL_PORT, port_header(CONTROL_PORT));
    assert(s.take(PORT_LEN as int) =~= port_header(CONTROL_PORT));
    assert(s.skip(PORT_LEN as int) =~= line_bytes(text));
    written_line_is_read_back(text, seq![]);
    assert(line_bytes(text) + seq![] =~= line_bytes(text));
    assert(read_lines(seq![], seq![]) =~= seq![]);
    assert(seq![Some(text)] + read_lines(seq![], seq![]) =~= seq![Some(text)]);
}

/// The header of a stream that carries the data of a port.
pub fn data_header(port: u16) -> (r: [u8; 2])
    ensures
        r@ == port_header(port),
{
    let r = [(port / 0x100) as u8, (port % 0x100) as u8];
    assert(r@ =~= port_header(port));
    r
}

/// The port number in the header of a stream.
pub fn stream_port(header: &[u8; 2]) -> (r: u16)
    ensures
        r == header_port(header@),
{
    header[0] as u16 * 0x100 + header[1] as u16
}

/// The bytes to write on an update stream.
pub fn update_bytes(text: &str) -> (r: Vec<u8>)
    ensures
        r@ == update_stream(text@),
{
    let header = data_header(CONTROL_PORT);
    let mut r: Vec<u8> = Vec::new();
    r.push(header[0]);
    r.push(header[1]);
    let mut line = message_line(text);
    r.append(&mut line);
    assert(r@ =~= update_stream(text@));
    r
}

/// The local address of a port of the host.
fn local_target(port: u16) -> (r: String)
    ensures
        r@ == local_address(port),
{
    let mut out = "127.0.0.1:".to_string();
    push_decimal(&mut out, port as u64);
    out
}

/// What a data stream is connected to.
#[derive(Debug, Clone, PartialEq, Eq)]
pub struct DataTarget {
    pub port: u16,
    pub address: String,
}

/// What a stream is connected to: the port in its header, on the local machine;
/// nothing where the header marks a control stream.
pub fn handle_data_stream(header: &[u8; 2]) -> (r: Option<DataTarget>)
    ensures
        match target_port(header@) {
            Some(port) => r matches Some(t) && t.port == port && t.address@ == local_address(port),
            None => r is None,
        },
{
    let port = stream_port(header);
    if port == CONTROL_PORT {
        return None;
    }
    Some(DataTarget { port, address: local_target(port) })
}

/// What to say where the host cannot connect to one of its own ports.
pub fn connect_failure(port: u16) -> (r: String)
    ensures
        r@ == "failed to connect localhost:"@ + decimal(port as nat),
{
    let mut out = "failed to connect localhost:".to_string();
    push_decimal(&mut out, port as u64);
    out
}

/// Where the session of a host with a gateway stands.
#[derive(Debug, Clone, Copy, PartialEq, Eq, Structural)]
pub enum Session {
    /// The control stream is being accepted.
    Opening,
    /// The subscription is being read.
    Subscribing,
    /// The services are being sent.
    Announcing,
    /// Updates are sent, and data streams accepted.
    Serving,
    /// The session failed.
    Over,
}

/// What happened in a session.
#[derive(Debug, Clone, Copy, PartialEq, Eq, Structural)]
pub enum SessionEvent {
    /// A stream was accepted, or could not be.
    Accepted(bool),
    /// A line came, with the message that it holds, if any.
    Heard(Option<GatewayMsg>),
    /// No line could be read.
    Unheard,
    /// The services were sent, or could not be.
    Announced(bool),
}

/// Why a session failed.
#[derive(Debug, Clone, Copy, PartialEq, Eq, Structural)]
pub enum SessionError {
    /// No control stream was accepted.
    AcceptStream,
    /// No subscription was read.
    ReadSubscribe,
    /// What was read is no subscription.
    InvalidSubscribe,
    /// The services were not sent.
    Announce,
}

impl SessionError {
    /// What to say of the failure, besides its cause.
    pub fn message(&self) -> (r: Option<&'static str>)
        ensures
            match *self {
                SessionError::AcceptStream => r matches Some(s) && s@ == "accept bi"@,
                SessionError::ReadSubscribe => r matches Some(s) && s@ == "read subscribe"@,
                SessionError::InvalidSubscribe => r matches Some(s) && s@ == "invalid subscribe"@,
                SessionError::Announce => r is None,
            },
    {
        match self {
            SessionError::AcceptStream => Some("accept bi"),
            SessionError::ReadSubscribe => Some("read subscribe"),
            SessionError::InvalidSubscribe => Some("invalid subscribe"),
            SessionError::Announce => None,
        }
    }
}

/// What to do next in a session.
#[derive(Debug, Clone, PartialEq, Eq)]
pub enum SessionAction {
    /// Read the subscription.
    Listen,
    /// Send this message.
    Announce(HostMsg),
    /// Start to send updates, and accept the first data stream.
    Serve,
    /// Connect the stream to its port, and accept the next one.
    Connect,
    /// Accept the next stream.
    Accept,
    /// End the session.
    Fail(SessionError),
}

/// What a [`SessionAction`] stands for.
pub enum SessionStep {
    Listen,
    Announce(Seq<Service>),
    Serve,
    Connect,
    Accept,
    Fail(SessionError),
}

impl View for SessionAction {
    type V = SessionStep;

    open spec fn view(&self) -> SessionStep {
        match *self {
            SessionAction::Listen => SessionStep::Listen,
            SessionAction::Announce(HostMsg::Services { services }) => SessionStep::Announce(
                services_view(services@),
            ),
            SessionAction::Serve => SessionStep::Serve,
            SessionAction::Connect => SessionStep::Connect,
            SessionAction::Accept => SessionStep::Accept,
            SessionAction::Fail(e) => SessionStep::Fail(e),
        }
    }
}

/// The course of a session with a host that knows some services: accept the
/// control stream, read a subscription, send the services known, then serve data
/// streams. A failure before that ends the session; one while serving does not.
pub open spec fn session(s: Session, e: SessionEvent, known: Seq<Service>) -> (
    Session,
    SessionStep,
) {
    match (s, e) {
        (Session::Opening, SessionEvent::Accepted(true)) => (
            Session::Subscribing,
            SessionStep::Listen,
        ),
        (Session::Subscribing, SessionEvent::Heard(Some(GatewayMsg::Subscribe))) => (
            Session::Announcing,
            SessionStep::Announce(known),
        ),
        (Session::Announcing, SessionEvent::Announced(true)) => (
            Session::Serving,
            SessionStep::Serve,
        ),
        (Session::Serving, SessionEvent::Accepted(true)) => (
            Session::Serving,
            SessionStep::Connect,
        ),
        (Session::Serving, _) => (Session::Serving, SessionStep::Accept),
        (Session::Opening, _) => (Session::Over, SessionStep::Fail(SessionError::AcceptStream)),
        (Session::Subscribing, SessionEvent::Heard(None)) => (
            Session::Over,
            SessionStep::Fail(SessionError::InvalidSubscribe),
        ),
        (Session::Subscribing, _) => (
            Session::Over,
            SessionStep::Fail(SessionError::ReadSubscribe),
        ),
        _ => (Session::Over, SessionStep::Fail(SessionError::Announce)),
    }
}

/// Where a session stands after some events. What the host knows meanwhile has no
/// part in it.
pub open spec fn session_after(events: Seq<SessionEvent>) -> Session
    decreases events.len(),
{
    if events.len() == 0 {
        Session::Opening
    } else {
        session(session_after(events.drop_last()), events.last(), Seq::empty()).0
    }
}

/// What the host knows decides what is announced and nothing else.
pub proof fn knowledge_is_announced_only(
    s: Session,
    e: SessionEvent,
    a: Seq<Service>,
    b: Seq<Service>,
)
    ensures
        session(s, e, a).0 == session(s, e, b).0,
        session(s, e, a).1 matches SessionStep::Announce(told) ==> told == a,
        session(s, e, a).1 !is Announce ==> session(s, e, a).1 == session(s, e, b).1,
{
}

/// Whether the first events of a session are those that lead to serving.
pub open spec fn leads_to_serving(events: Seq<SessionEvent>) -> bool {
    &&& events.len() >= 1 ==> events[0] == SessionEvent::Accepted(true)
    &&& events.len() >= 2 ==> (events[1] matches SessionEvent::Heard(Some(GatewayMsg::Subscribe)))
    &&& events.len() >= 3 ==> events[2] == SessionEvent::Announced(true)
}

/// A session stands where the number of its events says, as long as they lead to
/// serving; otherwise it is over. So a gateway is served exactly from the moment
/// at which its control stream was accepted, it subscribed and it was sent the
/// services, and from then on whatever happens.
pub proof fn served_after_subscription(events: Seq<SessionEvent>)
    ensures
        session_after(events) == (if !leads_to_serving(events) {
            Session::Over
        } else if events.len() == 0 {
            Session::Opening
        } else if events.len() == 1 {
            Session::Subscribing
        } else if events.len() == 2 {
            Session::Announcing
        } else {
            Session::Serving
        }),
    decreases events.len(),
{
    if events.len() > 0 {
        let before = events.drop_last();
        served_after_subscription(before);
        assert(forall|i: int| 0 <= i < before.len() ==> before[i] == events[i]);
    }
}

impl Session {
    /// A session that begins.
    pub fn new() -> (r: Session)
        ensures
            r == Session::Opening,
    {
        Session::Opening
    }

    /// Takes what happened and says what to do next. A gateway that subscribes is
    /// told the services that the host knows.
    pub fn handle_peer(&mut self, event: SessionEvent, host: &Host) -> (r: SessionAction)
        ensures
            (*final(self), r@) == session(*old(self), event, host.latest()),
    {
        let (next, action) = match (*self, event) {
            (Session::Opening, SessionEvent::Accepted(true)) => (
                Session::Subscribing,
                SessionAction::Listen,
            ),
            (Session::Opening, _) => (
                Session::Over,
                SessionAction::Fail(SessionError::AcceptStream),
            ),
            (Session::Subscribing, SessionEvent::Heard(msg)) => match msg {
                Some(GatewayMsg::Subscribe) => (
                    Session::Announcing,
                    SessionAction::Announce(host.subscribed()),
                ),
                None => (Session::Over, SessionAction::Fail(SessionError::InvalidSubscribe)),
            },
            (Session::Subscribing, _) => (
                Session::Over,
                SessionAction::Fail(SessionError::ReadSubscribe),
            ),
            (Session::Announcing, SessionEvent::Announced(true)) => (
                Session::Serving,
                SessionAction::Serve,
            ),
            (Session::Serving, SessionEvent::Accepted(true)) => (
                Session::Serving,
                SessionAction::Connect,
            ),
            (Session::Serving, _) => (Session::Serving, SessionAction::Accept),
            _ => (Session::Over, SessionAction::Fail(SessionError::Announce)),
        };
        *self = next;
        action
    }
}

/// The header of a stream is a port in base 256, the first byte worth more.
pub proof fn header_weights(port: u16, r: [u8; 2], header: [u8; 2], read: u16)
    requires
        call_ensures(data_header, (port,), r),
        call_ensures(stream_port, (&header,), read),
    ensures
        r@[0] * 256 + r@[1] == port,
        read == header@[0] * 256 + header@[1],
        r@ == port_header(port),
        read == header_port(header@),
{
    port_header_round_trip(port, header@);
}

/// Whether a text is the local address of a port: the address of the machine itself
/// and, behind a colon, the port in decimal without needless zeros.
pub open spec fn names_local_port(address: Seq<char>, port: u16) -> bool {
    let digits = address.skip(10);
    &&& has_prefix(address, "127.0.0.1:"@)
    &&& all_digits(digits)
    &&& value(digits) == port
    &&& port_number(digits) == Some(port)
    &&& digits.len() > 1 ==> digits[0] != '0'
}

/// The local address of a port names that port, and no two ports share one.
pub proof fn local_address_names_its_port(port: u16, other: u16)
    ensures
        names_local_port(local_address(port), port),
        local_address(port) == local_address(other) ==> port == other,
{
    reveal_strlit("127.0.0.1:");
    let host = "127.0.0.1:"@;
    let a = decimal(port as nat);
    let b = decimal(other as nat);
    decimal_properties(port as nat);
    decimal_properties(other as nat);
    port_text(a, a, port);
    prefix_and_rest(host, host, a);
    assert(local_address(port).skip(10) =~= a);
    assert(local_address(other).skip(10) =~= b);
}

/// A stream is connected to the port that its two bytes of header name, at the
/// address of the machine itself with that port, and to nothing exactly where both
/// bytes are zero.
pub proof fn stream_is_connected_to_its_port(header: [u8; 2], r: Option<DataTarget>)
    requires
        call_ensures(handle_data_stream, (&header,), r),
    ensures
        r is None <==> header@[0] == 0 && header@[1] == 0,
        r matches Some(target) ==> target.port == header@[0] * 256 + header@[1]
            && names_local_port(target.address@, target.port),
{
    if r is Some {
        local_address_names_its_port(r->0.port, r->0.port);
    }
}

/// A connection that was accepted on a port goes to the same port of the host: the
/// header that one side writes is the target that the other connects to.
pub proof fn accepted_port_is_connected(port: u16, header: [u8; 2], r: Option<DataTarget>)
    requires
        port != 0,
        call_ensures(data_header, (port,), header),
        call_ensures(handle_data_stream, (&header,), r),
    ensures
        r matches Some(target) && target.port == port && names_local_port(target.address@, port),
{
    connection_reaches_its_port(port);
    local_address_names_its_port(port, port);
}

/// An update is two zero bytes, the UTF-8 of its text and a newline.
pub proof fn update_layout(text: &str, r: Vec<u8>)
    requires
        call_ensures(update_bytes, (text,), r),
    ensures
        r@ == update_stream(text@),
        r@ == seq![0u8, 0u8] + encode_utf8(text@) + seq![10u8],
{
    assert(r@ =~= seq![0u8, 0u8] + encode_utf8(text@) + seq![10u8]);
}

/// What is said of a failed connection ends in the port.
pub proof fn connect_failure_names_the_port(port: u16, r: String)
    requires
        call_ensures(connect_failure, (port,), r),
    ensures
        has_prefix(r@, "failed to connect localhost:"@),
        port_number(after_last(r@, ':')) == Some(port),
{
    reveal_strlit("failed to connect localhost:");
    let text = "failed to connect localhost:"@;
    let end = decimal(port as nat);
    decimal_properties(port as nat);
    assert forall|i: int| 0 <= i < end.len() implies end[i] != ':' by {
        assert(digit(end[i]));
    }
    prefix_and_rest(text, text, end);
    assert(text =~= text.drop_last() + seq![':']);
    after_last_is_the_end(text.drop_last(), ':', end);
    port_text(end, end, port);
}

/// What is done in a session, and when: the subscription is read exactly once the
/// control stream was accepted; the services that the host knows are sent exactly
/// when it came; updates begin exactly when they were sent; then every stream that is
/// accepted is connected, and nothing ends the session. Anything else does.
pub proof fn session_acts(s: &mut Session, e: SessionEvent, host: Host, r: SessionAction)
    requires
        call_ensures(Session::handle_peer, (s, e, &host), r),
    ensures
        r is Listen <==> *old(s) is Opening && e == SessionEvent::Accepted(true),
        r is Announce <==> *old(s) is Subscribing && (e matches SessionEvent::Heard(Some(_))),
        r matches SessionAction::Announce(HostMsg::Services { services }) ==> services_view(
            services@,
        ) == host.latest(),
        r is Serve <==> *old(s) is Announcing && e == SessionEvent::Announced(true),
        r is Connect <==> *old(s) is Serving && e == SessionEvent::Accepted(true),
        r is Accept <==> *old(s) is Serving && e != SessionEvent::Accepted(true),
        r is Fail <==> *final(s) is Over,
        r is Listen <==> *final(s) is Subscribing,
        r is Announce <==> *final(s) is Announcing,
        *final(s) is Serving <==> r is Serve || r is Connect || r is Accept,
        r matches SessionAction::Fail(why) ==> {
            &&& why is AcceptStream <==> *old(s) is Opening
            &&& why is InvalidSubscribe <==> *old(s) is Subscribing && e == SessionEvent::Heard(
                None,
            )
            &&& why is ReadSubscribe <==> *old(s) is Subscribing && e != SessionEvent::Heard(None)
            &&& why is Announce <==> *old(s) is Announcing || *old(s) is Over
        },
{
}

} // verus!
