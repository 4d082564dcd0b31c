//! The virtual network: messages between its nodes, and how they meet.

use crate::addr::{address_survives_text, denoted, denoted_is_dotted, dotted, Ipv4};
use crate::frame::CTRL_TYPE;
use crate::text::{has_prefix, prefix_and_rest};
use iroh_tickets::endpoint::EndpointTicket;
use iroh_tickets::Ticket;
use vstd::prelude::*;
use vstd::string::*;

verus! {

/// A node of the network as it is announced to others.
#[derive(Debug, Clone, PartialEq, Eq)]
pub struct PeerInfo {
    pub ip: String,
    pub pubkey: String,
    pub ticket: String,
}

/// What a [`PeerInfo`] stands for.
pub struct PeerView {
    pub ip: Seq<char>,
    pub pubkey: Seq<char>,
    pub ticket: Seq<char>,
}

impl View for PeerInfo {
    type V = PeerView;

    open spec fn view(&self) -> PeerView {
        PeerView { ip: self.ip@, pubkey: self.pubkey@, ticket: self.ticket@ }
    }
}

/// A control message between two nodes.
#[derive(Debug, Clone, PartialEq, Eq)]
pub enum VnetMsg {
    /// A node names its own address.
    Hello { ip: String },
    /// A node names the others that it knows, and its own address. Nodes that do
    /// not name their own are understood too.
    PeerList { ip: Option<String>, peers: Vec<PeerInfo> },
}

/// The peers that a sequence of [`PeerInfo`] stands for.
pub open spec fn peers_view(v: Seq<PeerInfo>) -> Seq<PeerView> {
    v.map_values(|p: PeerInfo| p@)
}

/// How a node is announced of which only the address is known.
pub open spec fn known_by_address(ip: Ipv4) -> PeerView {
    PeerView { ip: dotted(ip), pubkey: Seq::empty(), ticket: Seq::empty() }
}

/// The address that a greeting names: it came in a control frame, is a
/// [`VnetMsg::Hello`], and names an address other than 0.0.0.0.
pub open spec fn greeted_by(typ: u32, msg: Option<VnetMsg>) -> Option<Ipv4> {
    match msg {
        Some(VnetMsg::Hello { ip }) => match denoted(ip@) {
            Some(addr) => if typ == CTRL_TYPE && addr.bits != 0 {
                Some(addr)
            } else {
                None
            },
            None => None,
        },
        _ => None,
    }
}

/// The address of the node that answers a greeting, as the answer names it: one
/// other than 0.0.0.0.
pub open spec fn answered_by(msg: VnetMsg) -> Option<Ipv4> {
    match msg {
        VnetMsg::PeerList { ip: Some(text), .. } => match denoted(text@) {
            Some(addr) => if addr.bits != 0 {
                Some(addr)
            } else {
                None
            },
            None => None,
        },
        _ => None,
    }
}

/// A ticket that some text denotes, in its byte form.
pub uninterp spec fn ticket(text: Seq<char>) -> Option<Seq<u8>>;

/// The error of parsing a ticket.
#[verifier::external_type_specification]
#[verifier::external_body]
pub struct ExTicketError(iroh_tickets::ParseError);

/// Calls `EndpointTicket::from_str`, and `encode_bytes` for the byte form of the
/// ticket. Claims that whether it succeeds, and with which ticket, depends on
/// the text alone.
#[verifier::external_body]
fn parse_ticket(text: &str) -> (r: Result<Vec<u8>, iroh_tickets::ParseError>)
    ensures
        match r {
            Ok(bytes) => ticket(text@) == Some(bytes@),
            Err(_) => ticket(text@) is None,
        },
{
    match text.parse::<EndpointTicket>() {
        Ok(t) => Ok(t.encode_bytes()),
        Err(e) => Err(e),
    }
}

/// The greeting of a node with an address.
pub fn hello(self_ip: Ipv4) -> (r: VnetMsg)
    ensures
        r matches VnetMsg::Hello { ip } && ip@ == dotted(self_ip),
{
    VnetMsg::Hello { ip: self_ip.to_text() }
}

/// The address that a greeting names.
pub fn greeting_address(typ: u32, msg: &Option<VnetMsg>) -> (r: Option<Ipv4>)
    ensures
        r == greeted_by(typ, *msg),
{
    if typ != CTRL_TYPE {
        return None;
    }
    match msg {
        Some(VnetMsg::Hello { ip }) => match Ipv4::parse(ip.as_str()) {
            Some(addr) => if addr.bits != 0 {
                Some(addr)
            } else {
                None
            },
            None => None,
        },
        _ => None,
    }
}

/// A node that greets with its own address is known by that address, unless it
/// is 0.0.0.0.
pub proof fn greeting_is_understood(self_ip: Ipv4, ip: String)
    requires
        ip@ == dotted(self_ip),
    ensures
        greeted_by(CTRL_TYPE, Some(VnetMsg::Hello { ip })) == (if self_ip.bits != 0 {
            Some(self_ip)
        } else {
            None
        }),
{
    address_survives_text(self_ip);
}

/// A node that names its own address in an answer is known by that address,
/// unless it is 0.0.0.0.
pub proof fn answer_is_understood(self_ip: Ipv4, ip: String, peers: Vec<PeerInfo>)
    requires
        ip@ == dotted(self_ip),
    ensures
        answered_by(VnetMsg::PeerList { ip: Some(ip), peers }) == (if self_ip.bits != 0 {
            Some(self_ip)
        } else {
            None
        }),
{
    address_survives_text(self_ip);
}

/// The address of the node that answers, as the answer names it.
pub fn answer_address(ip: &Option<String>) -> (r: Option<Ipv4>)
    ensures
        forall|peers: Vec<PeerInfo>| r == #[trigger] answered_by(
            VnetMsg::PeerList { ip: *ip, peers },
        ),
{
    match ip {
        Some(text) => match Ipv4::parse(text.as_str()) {
            Some(addr) => if addr.bits != 0 {
                Some(addr)
            } else {
                None
            },
            None => None,
        },
        None => None,
    }
}

/// Where the meeting with a node that connected stands.
#[derive(Debug, Clone, Copy, PartialEq, Eq, Structural)]
pub enum Greeting {
    /// Its stream is being accepted.
    Opening,
    /// Its greeting is being read.
    Listening,
    /// It is being sent the known peers.
    Answering(Ipv4),
    /// It was admitted or turned away.
    Over,
}

/// What happened in the meeting.
#[derive(Debug)]
pub enum GreetEvent {
    /// The stream was accepted, or could not be.
    Opened(bool),
    /// A frame came, with the message that its payload holds, if any.
    Heard { typ: u32, msg: Option<VnetMsg> },
    /// No frame could be read.
    Unheard,
    /// The known peers were sent, or could not be.
    Answered(bool),
}

/// What to do next.
#[derive(Debug, Clone, Copy, PartialEq, Eq, Structural)]
pub enum GreetAction {
    /// Read the greeting.
    Listen,
    /// Send the known peers.
    Answer,
    /// Add the node to the pool and read its frames.
    Admit(Ipv4),
    /// Let the connection go.
    Dismiss,
}

/// The course of a meeting: accept the stream, read a greeting, send the known
/// peers, admit; anything else ends it.
pub open spec fn greet(g: Greeting, e: GreetEvent) -> (Greeting, GreetAction) {
    match (g, e) {
        (Greeting::Opening, GreetEvent::Opened(true)) => (Greeting::Listening, GreetAction::Listen),
        (Greeting::Listening, GreetEvent::Heard { typ, msg }) => match greeted_by(typ, msg) {
            Some(ip) => (Greeting::Answering(ip), GreetAction::Answer),
            None => (Greeting::Over, GreetAction::Dismiss),
        },
        (Greeting::Answering(ip), GreetEvent::Answered(true)) => (
            Greeting::Over,
            GreetAction::Admit(ip),
        ),
        _ => (Greeting::Over, GreetAction::Dismiss),
    }
}

/// Where a meeting stands after some events.
pub open spec fn greeting_after(events: Seq<GreetEvent>) -> Greeting
    decreases events.len(),
{
    if events.len() == 0 {
        Greeting::Opening
    } else {
        greet(greeting_after(events.drop_last()), events.last()).0
    }
}

/// A node is admitted only after its stream was accepted, it greeted with an
/// address of its own and it was sent the known peers, and it is admitted under
/// the address that it greeted with.
pub proof fn admitted_by_greeting(events: Seq<GreetEvent>, e: GreetEvent, ip: Ipv4)
    requires
        greet(greeting_after(events), e).1 == GreetAction::Admit(ip),
    ensures
        events.len() == 2,
        events[0] == GreetEvent::Opened(true),
        events[1] matches GreetEvent::Heard { typ, msg } && greeted_by(typ, msg) == Some(ip),
        e == GreetEvent::Answered(true),
        ip.bits != 0,
{
    assert(greeting_after(events) == Greeting::Answering(ip));
    let one = events.drop_last();
    assert(greeting_after(one) == Greeting::Listening);
    let none = one.drop_last();
    assert(greeting_after(none) == Greeting::Opening);
    if none.len() > 0 {
        assert(greeting_after(none) == greet(
            greeting_after(none.drop_last()),
            none.last(),
        ).0);
    }
}

impl Greeting {
    /// A meeting that begins.
    pub fn new() -> (r: Greeting)
        ensures
            r == Greeting::Opening,
    {
        Greeting::Opening
    }

    /// Takes what happened and says what to do next.
    pub fn step(&mut self, event: GreetEvent) -> (r: GreetAction)
        ensures
            (*final(self), r) == greet(*old(self), event),
    {
        let (next, action) = match (*self, event) {
            (Greeting::Opening, GreetEvent::Opened(true)) => (
                Greeting::Listening,
                GreetAction::Listen,
            ),
            (Greeting::Listening, GreetEvent::Heard { typ, msg }) => match greeting_address(
                typ,
                &msg,
            ) {
                Some(ip) => (Greeting::Answering(ip), GreetAction::Answer),
                None => (Greeting::Over, GreetAction::Dismiss),
            },
            (Greeting::Answering(ip), GreetEvent::Answered(true)) => (
                Greeting::Over,
                GreetAction::Admit(ip),
            ),
            _ => (Greeting::Over, GreetAction::Dismiss),
        };
        *self = next;
        action
    }
}

/// Where to connect to a peer: its address in the network, and its ticket in
/// byte form.
#[derive(Debug)]
pub struct PeerTarget {
    pub ip: Ipv4,
    pub ticket: Vec<u8>,
}

/// Why an announced peer cannot be connected to.
#[derive(Debug)]
pub enum PeerError {
    /// What it gives for its address is none.
    InvalidIp,
    /// What it gives for its ticket is none.
    InvalidTicket(iroh_tickets::ParseError),
}

impl PeerError {
    /// What to say of the failure, besides its cause.
    pub fn message(&self) -> (r: &'static str)
        ensures
            r@ == match *self {
                PeerError::InvalidIp => "invalid peer IP"@,
                PeerError::InvalidTicket(_) => "invalid peer ticket"@,
            },
    {
        match self {
            PeerError::InvalidIp => "invalid peer IP",
            PeerError::InvalidTicket(_) => "invalid peer ticket",
        }
    }
}

/// The address and the ticket of an announced peer.
pub fn peer_target(info: &PeerInfo) -> (r: Result<PeerTarget, PeerError>)
    ensures
        match r {
            Ok(t) => denoted(info.ip@) == Some(t.ip) && ticket(info.ticket@) == Some(t.ticket@),
            Err(PeerError::InvalidIp) => denoted(info.ip@) is None,
            Err(PeerError::InvalidTicket(_)) => denoted(info.ip@) is Some && ticket(
                info.ticket@,
            ) is None,
        },
{
    let ip = match Ipv4::parse(info.ip.as_str()) {
        Some(ip) => ip,
        None => return Err(PeerError::InvalidIp),
    };
    target_with_ticket(ip, parse_ticket(info.ticket.as_str()))
}

/// The target with an address and the outcome of parsing a ticket.
pub fn target_with_ticket(
    ip: Ipv4,
    parsed: Result<Vec<u8>, iroh_tickets::ParseError>,
) -> (r: Result<PeerTarget, PeerError>)
    ensures
        match parsed {
            Ok(bytes) => r matches Ok(t) && t.ip == ip && t.ticket == bytes,
            Err(e) => r matches Err(PeerError::InvalidTicket(f)) && f == e,
        },
{
    match parsed {
        Ok(ticket) => Ok(PeerTarget { ip, ticket }),
        Err(e) => Err(PeerError::InvalidTicket(e)),
    }
}

/// Where the attempt to connect to a peer stands.
#[derive(Debug, Clone, Copy, PartialEq, Eq, Structural)]
pub enum Dial {
    /// A connection is being made.
    Connecting(Ipv4),
    /// A stream is being opened.
    Opening(Ipv4),
    /// The greeting is being sent.
    Greeting(Ipv4),
    /// The answer to the greeting is being read.
    Listening(Ipv4),
    /// The attempt is over.
    Over,
}

/// What to do next.
#[derive(Debug, Clone, Copy, PartialEq, Eq, Structural)]
pub enum DialAction {
    /// Open a stream.
    Open,
    /// Send the greeting.
    Greet,
    /// Read the answer, whatever it is.
    Listen,
    /// Add the peer to the pool and read its frames.
    Admit(Ipv4),
    /// Report the failure.
    Fail,
}

/// The course of an attempt: connect, open a stream, greet, read an answer,
/// admit; the first failure ends it.
pub open spec fn dial(d: Dial, done: bool) -> (Dial, DialAction) {
    if !done {
        (Dial::Over, DialAction::Fail)
    } else {
        match d {
            Dial::Connecting(ip) => (Dial::Opening(ip), DialAction::Open),
            Dial::Opening(ip) => (Dial::Greeting(ip), DialAction::Greet),
            Dial::Greeting(ip) => (Dial::Listening(ip), DialAction::Listen),
            Dial::Listening(ip) => (Dial::Over, DialAction::Admit(ip)),
            Dial::Over => (Dial::Over, DialAction::Fail),
        }
    }
}

/// Where an attempt stands after some steps were done or failed.
pub open spec fn dial_after(ip: Ipv4, steps: Seq<bool>) -> Dial
    decreases steps.len(),
{
    if steps.len() == 0 {
        Dial::Connecting(ip)
    } else {
        dial(dial_after(ip, steps.drop_last()), steps.last()).0
    }
}

/// An attempt admits the peer that it is for, and exactly when its four steps
/// were done, one after the other.
pub proof fn dial_admits(ip: Ipv4, steps: Seq<bool>, done: bool, who: Ipv4)
    ensures
        dial(dial_after(ip, steps), done).1 == DialAction::Admit(who) <==> who == ip && steps
            == seq![true, true, true] && done,
{
    let two = steps.drop_last();
    let one = two.drop_last();
    let none = one.drop_last();
    if steps == seq![true, true, true] {
        assert(two =~= seq![true, true]);
        assert(one =~= seq![true]);
        assert(none =~= seq![]);
        assert(dial_after(ip, none) == Dial::Connecting(ip));
        assert(dial_after(ip, one) == Dial::Opening(ip));
        assert(dial_after(ip, two) == Dial::Greeting(ip));
    }
    if dial(dial_after(ip, steps), done).1 == DialAction::Admit(who) {
        assert(dial_after(ip, steps) == Dial::Listening(who));
        assert(dial_after(ip, two) == Dial::Greeting(who));
        assert(dial_after(ip, one) == Dial::Opening(who));
        assert(dial_after(ip, none) == Dial::Connecting(who));
        if none.len() > 0 {
            assert(dial_after(ip, none) == dial(dial_after(ip, none.drop_last()), none.last()).0);
        }
        assert(steps =~= seq![true, true, true]);
    }
}

impl Dial {
    /// An attempt to connect to the peer with an address.
    pub fn new(ip: Ipv4) -> (r: Dial)
        ensures
            r == Dial::Connecting(ip),
    {
        Dial::Connecting(ip)
    }

    /// Takes whether the present step was done and says what to do next.
    pub fn step(&mut self, done: bool) -> (r: DialAction)
        ensures
            (*final(self), r) == dial(*old(self), done),
    {
        if !done {
            *self = Dial::Over;
            return DialAction::Fail;
        }
        let (next, action) = match *self {
            Dial::Connecting(ip) => (Dial::Opening(ip), DialAction::Open),
            Dial::Opening(ip) => (Dial::Greeting(ip), DialAction::Greet),
            Dial::Greeting(ip) => (Dial::Listening(ip), DialAction::Listen),
            Dial::Listening(ip) => (Dial::Over, DialAction::Admit(ip)),
            Dial::Over => (Dial::Over, DialAction::Fail),
        };
        *self = next;
        action
    }

    /// What to say of the present step where it fails, if anything.
    pub fn context(&self) -> (r: Option<String>)
        ensures
            match *self {
                Dial::Connecting(ip) => r matches Some(s) && s@ == "connect to "@ + dotted(ip),
                Dial::Opening(_) => r matches Some(s) && s@ == "open bi"@,
                _ => r is None,
            },
    {
        match self {
            Dial::Connecting(ip) => {
                let text = ip.to_text();
                Some("connect to ".to_string().concat(text.as_str()))
            },
            Dial::Opening(_) => Some("open bi".to_string()),
            _ => None,
        }
    }
}

/// Where joining the network through one of its nodes stands.
#[derive(Debug, Clone, Copy, PartialEq, Eq, Structural)]
pub enum Join {
    /// A connection is being made.
    Connecting(Ipv4),
    /// A stream is being opened.
    Opening(Ipv4),
    /// The greeting is being sent.
    Greeting(Ipv4),
    /// The answer to the greeting is being read.
    Listening(Ipv4),
    /// The peers that the answer names are being connected to. The stream is to be
    /// kept under this address.
    Meeting(Ipv4),
    /// Joining is over.
    Over,
}

/// What happened while joining.
#[derive(Debug)]
pub enum JoinEvent {
    /// The present step was done, or could not be.
    Done(bool),
    /// The answer came, with the message that it holds, if any.
    Heard(Option<VnetMsg>),
}

/// Why joining failed.
#[derive(Debug, Clone, Copy, PartialEq, Eq, Structural)]
pub enum JoinError {
    /// No connection was made.
    Connect,
    /// No stream was opened.
    Open,
    /// The greeting was not sent.
    Greet,
    /// No answer was read.
    Read,
    /// The answer is no message.
    InvalidPeerList,
}

impl JoinError {
    /// What to say of the failure, besides its cause.
    pub fn message(&self) -> (r: Option<&'static str>)
        ensures
            match *self {
                JoinError::Connect => r matches Some(s) && s@ == "connect to peer"@,
                JoinError::Open => r matches Some(s) && s@ == "open bi"@,
                JoinError::Greet => r is None,
                JoinError::Read => r is None,
                JoinError::InvalidPeerList => r matches Some(s) && s@ == "invalid PeerList"@,
            },
    {
        match self {
            JoinError::Connect => Some("connect to peer"),
            JoinError::Open => Some("open bi"),
            JoinError::Greet => None,
            JoinError::Read => None,
            JoinError::InvalidPeerList => Some("invalid PeerList"),
        }
    }
}

/// What to do next.
#[derive(Debug)]
pub enum JoinAction {
    /// Open a stream.
    Open,
    /// Send the greeting.
    Greet,
    /// Read the answer.
    Listen,
    /// Connect to these peers, as far as they can be reached.
    Connect(Vec<PeerInfo>),
    /// Say that the answer names no peers, and go on.
    Unexpected,
    /// Keep the stream in the pool under this address and read its frames.
    Admit(Ipv4),
    /// Give up.
    Fail(JoinError),
}

/// Why joining failed at a step.
pub open spec fn join_failure(j: Join) -> JoinError {
    match j {
        Join::Connecting(_) => JoinError::Connect,
        Join::Opening(_) => JoinError::Open,
        Join::Greeting(_) => JoinError::Greet,
        _ => JoinError::Read,
    }
}

/// The address under which the stream to the node that answered is kept: the one
/// that the answer names. A stream to a node that names none is kept for reading
/// only, under the own address of the node that joins, to which nothing is sent.
pub open spec fn joined_address(self_ip: Ipv4, msg: VnetMsg) -> Ipv4 {
    match answered_by(msg) {
        Some(ip) => ip,
        None => self_ip,
    }
}

/// The course of joining: connect, open a stream, greet, read an answer, connect
/// to the peers that it names, and keep the stream under the address of the node
/// that answered. The first failure ends it, but for a peer that cannot be
/// reached.
pub open spec fn join(j: Join, e: JoinEvent) -> (Join, JoinAction) {
    match (j, e) {
        (Join::Connecting(ip), JoinEvent::Done(true)) => (Join::Opening(ip), JoinAction::Open),
        (Join::Opening(ip), JoinEvent::Done(true)) => (Join::Greeting(ip), JoinAction::Greet),
        (Join::Greeting(ip), JoinEvent::Done(true)) => (Join::Listening(ip), JoinAction::Listen),
        (Join::Listening(ip), JoinEvent::Heard(Some(msg))) => (
            Join::Meeting(joined_address(ip, msg)),
            match msg {
                VnetMsg::PeerList { peers, .. } => JoinAction::Connect(peers),
                VnetMsg::Hello { .. } => JoinAction::Unexpected,
            },
        ),
        (Join::Listening(_), JoinEvent::Heard(None)) => (
            Join::Over,
            JoinAction::Fail(JoinError::InvalidPeerList),
        ),
        (Join::Meeting(ip), _) => (Join::Over, JoinAction::Admit(ip)),
        _ => (Join::Over, JoinAction::Fail(join_failure(j))),
    }
}

/// Where joining stands after some events.
pub open spec fn join_after(ip: Ipv4, events: Seq<JoinEvent>) -> Join
    decreases events.len(),
{
    if events.len() == 0 {
        Join::Connecting(ip)
    } else {
        join(join_after(ip, events.drop_last()), events.last()).0
    }
}

/// A node that joins keeps the stream exactly when a connection was made, a
/// stream opened, the greeting sent and a message came in answer, and it keeps it
/// under the address of the node that answered.
pub proof fn joined_after_answer(self_ip: Ipv4, events: Seq<JoinEvent>, e: JoinEvent, who: Ipv4)
    ensures
        join(join_after(self_ip, events), e).1 == JoinAction::Admit(who) <==> {
            &&& events.len() == 4
            &&& events[0] == JoinEvent::Done(true)
            &&& events[1] == JoinEvent::Done(true)
            &&& events[2] == JoinEvent::Done(true)
            &&& (events[3] matches JoinEvent::Heard(Some(msg)) && who == joined_address(
                self_ip,
                msg,
            ))
        },
{
    let three = events.drop_last();
    let two = three.drop_last();
    let one = two.drop_last();
    let none = one.drop_last();
    if events.len() == 4 {
        assert(join_after(self_ip, none) == Join::Connecting(self_ip));
        assert(one.last() == events[0] && two.last() == events[1] && three.last() == events[2]);
        assert(join_after(self_ip, one) == join(join_after(self_ip, none), events[0]).0);
        assert(join_after(self_ip, two) == join(join_after(self_ip, one), events[1]).0);
        assert(join_after(self_ip, three) == join(join_after(self_ip, two), events[2]).0);
        assert(join_after(self_ip, events) == join(join_after(self_ip, three), events[3]).0);
    }
    if join(join_after(self_ip, events), e).1 == JoinAction::Admit(who) {
        assert(join_after(self_ip, events) == Join::Meeting(who));
        let own = join_after(self_ip, three)->Listening_0;
        assert(join_after(self_ip, three) == Join::Listening(own));
        assert(join_after(self_ip, two) == Join::Greeting(own));
        assert(join_after(self_ip, one) == Join::Opening(own));
        assert(join_after(self_ip, none) == Join::Connecting(own));
        if none.len() > 0 {
            assert(join_after(self_ip, none) == join(
                join_after(self_ip, none.drop_last()),
                none.last(),
            ).0);
        }
    }
}

impl Join {
    /// A node with an address that begins to join.
    pub fn new(self_ip: Ipv4) -> (r: Join)
        ensures
            r == Join::Connecting(self_ip),
    {
        Join::Connecting(self_ip)
    }

    /// Takes what happened and says what to do next.
    pub fn step(&mut self, event: JoinEvent) -> (r: JoinAction)
        ensures
            (*final(self), r) == join(*old(self), event),
    {
        let (next, action) = match (*self, event) {
            (Join::Connecting(ip), JoinEvent::Done(true)) => (Join::Opening(ip), JoinAction::Open),
            (Join::Connecting(_), _) => (Join::Over, JoinAction::Fail(JoinError::Connect)),
            (Join::Opening(ip), JoinEvent::Done(true)) => (Join::Greeting(ip), JoinAction::Greet),
            (Join::Opening(_), _) => (Join::Over, JoinAction::Fail(JoinError::Open)),
            (Join::Greeting(ip), JoinEvent::Done(true)) => (
                Join::Listening(ip),
                JoinAction::Listen,
            ),
            (Join::Greeting(_), _) => (Join::Over, JoinAction::Fail(JoinError::Greet)),
            (Join::Listening(ip), JoinEvent::Heard(msg)) => match msg {
                Some(VnetMsg::PeerList { ip: named, peers }) => {
                    let under = match answer_address(&named) {
                        Some(addr) => addr,
                        None => ip,
                    };
                    assert(answered_by(VnetMsg::PeerList { ip: named, peers }) == answered_by(
                        msg->0,
                    ));
                    (Join::Meeting(under), JoinAction::Connect(peers))
                },
                Some(VnetMsg::Hello { .. }) => (Join::Meeting(ip), JoinAction::Unexpected),
                None => (Join::Over, JoinAction::Fail(JoinError::InvalidPeerList)),
            },
            (Join::Meeting(ip), _) => (Join::Over, JoinAction::Admit(ip)),
            _ => (Join::Over, JoinAction::Fail(JoinError::Read)),
        };
        *self = next;
        action
    }
}

/// Each peer of a list is that of the entry at the same place, with its address, its
/// key and its ticket.
pub proof fn peers_entry_by_entry(v: Seq<PeerInfo>, i: int)
    ensures
        peers_view(v).len() == v.len(),
        0 <= i < v.len() ==> peers_view(v)[i].ip == v[i].ip@ && peers_view(v)[i].pubkey
            == v[i].pubkey@ && peers_view(v)[i].ticket == v[i].ticket@,
{
}

/// The greeting of a node holds its own address in dotted form.
pub proof fn greeting_names_the_node(self_ip: Ipv4, r: VnetMsg)
    requires
        call_ensures(hello, (self_ip,), r),
    ensures
        r matches VnetMsg::Hello { ip } && ip@ == dotted(self_ip),
{
}

/// A frame greets as a node exactly when it is a control frame with a greeting that
/// holds the dotted form of the node's address, whichever that is but 0.0.0.0.
pub proof fn greeting_is_heard(typ: u32, msg: Option<VnetMsg>, r: Option<Ipv4>, ip: Ipv4)
    requires
        call_ensures(greeting_address, (typ, &msg), r),
    ensures
        r == greeted_by(typ, msg),
        r == Some(ip) <==> typ == 0 && ip.bits != 0 && (msg matches Some(
            VnetMsg::Hello { ip: text },
        ) && text@ == dotted(ip)),
{
    if let Some(VnetMsg::Hello { ip: text }) = msg {
        denoted_is_dotted(text@, ip);
    }
}

/// The same of the greetings in contracts.
pub proof fn greeted_by_dotted(typ: u32, msg: Option<VnetMsg>, ip: Ipv4)
    ensures
        greeted_by(typ, msg) == Some(ip) <==> typ == 0 && ip.bits != 0 && (msg matches Some(
            VnetMsg::Hello { ip: text },
        ) && text@ == dotted(ip)),
{
    if let Some(VnetMsg::Hello { ip: text }) = msg {
        denoted_is_dotted(text@, ip);
    }
}

/// A node whose stream was accepted, which greeted with an address other than
/// 0.0.0.0, and which was sent the answer, is admitted under that address, whichever
/// it is.
pub proof fn node_that_greets_is_admitted(typ: u32, msg: Option<VnetMsg>, ip: Ipv4)
    requires
        typ == 0,
        msg matches Some(VnetMsg::Hello { ip: text }) && text@ == dotted(ip),
        ip.bits != 0,
    ensures
        ({
            let opened = GreetEvent::Opened(true);
            let heard = GreetEvent::Heard { typ, msg };
            &&& greet(greeting_after(seq![]), opened).1 == GreetAction::Listen
            &&& greet(greeting_after(seq![opened]), heard).1 == GreetAction::Answer
            &&& greet(greeting_after(seq![opened, heard]), GreetEvent::Answered(true)).1
                == GreetAction::Admit(ip)
        }),
{
    greeted_by_dotted(typ, msg, ip);
    let opened = GreetEvent::Opened(true);
    let heard = GreetEvent::Heard { typ, msg };
    let one = seq![opened];
    let two = seq![opened, heard];
    assert(two.drop_last() =~= one);
    assert(one.drop_last() =~= Seq::<GreetEvent>::empty());
    assert(greeting_after(Seq::<GreetEvent>::empty()) == Greeting::Opening);
    assert(greeting_after(one) == Greeting::Listening);
    assert(greeting_after(two) == Greeting::Answering(ip));
}

/// What is done in a meeting, and when: the greeting is read exactly once the stream
/// was accepted; the answer is sent exactly when a node greeted; the node is admitted
/// under the address that it greeted with exactly when that was sent. Anything else
/// ends the meeting.
pub proof fn meeting_acts(g: &mut Greeting, e: GreetEvent, r: GreetAction, ip: Ipv4)
    requires
        call_ensures(Greeting::step, (g, e), r),
    ensures
        r is Listen <==> *old(g) is Opening && e == GreetEvent::Opened(true),
        *final(g) == Greeting::Answering(ip) <==> *old(g) is Listening && ip.bits != 0 && (
        e matches GreetEvent::Heard { typ, msg } && typ == 0 && (msg matches Some(
            VnetMsg::Hello { ip: text },
        ) && text@ == dotted(ip))),
        r is Answer <==> *final(g) is Answering,
        r == GreetAction::Admit(ip) <==> *old(g) == Greeting::Answering(ip) && e
            == GreetEvent::Answered(true),
        r is Listen <==> *final(g) is Listening,
        r is Admit || r is Dismiss <==> *final(g) is Over,
{
    if let GreetEvent::Heard { typ, msg } = e {
        greeted_by_dotted(typ, msg, ip);
    }
}

/// What is done while connecting to a peer: each step leads to the next, and the peer
/// is admitted under the address that it was to be reached at; a step that fails ends
/// the attempt.
pub proof fn dial_acts(d: &mut Dial, done: bool, r: DialAction, ip: Ipv4)
    requires
        call_ensures(Dial::step, (d, done), r),
    ensures
        r is Open <==> done && *old(d) is Connecting,
        r is Greet <==> done && *old(d) is Opening,
        r is Listen <==> done && *old(d) is Greeting,
        r == DialAction::Admit(ip) <==> done && *old(d) == Dial::Listening(ip),
        r is Fail <==> !done || *old(d) is Over,
        *final(d) == Dial::Opening(ip) <==> done && *old(d) == Dial::Connecting(ip),
        *final(d) == Dial::Greeting(ip) <==> done && *old(d) == Dial::Opening(ip),
        *final(d) == Dial::Listening(ip) <==> done && *old(d) == Dial::Greeting(ip),
        *final(d) is Over <==> r is Admit || r is Fail,
{
}

/// What is said of a connection that fails ends in the address of the peer.
pub proof fn dial_names_the_peer(ip: Ipv4, d: Dial, r: Option<String>)
    requires
        call_ensures(Dial::new, (ip,), d),
        call_ensures(Dial::context, (&d,), r),
    ensures
        d == Dial::Connecting(ip),
        r matches Some(s) && has_prefix(s@, "connect to "@) && denoted(s@.skip(11)) == Some(ip),
{
    reveal_strlit("connect to ");
    prefix_and_rest("connect to "@, "connect to "@, dotted(ip));
    assert(r->0@.skip(11) =~= dotted(ip));
    denoted_is_dotted(dotted(ip), ip);
}

/// What is done while joining: each step leads to the next; an answer that lists
/// peers has all of them connected to; then the stream is kept under the address that
/// the answer names in dotted form. A step that fails before ends it.
pub proof fn joining_acts(j: &mut Join, e: JoinEvent, r: JoinAction, ip: Ipv4)
    requires
        call_ensures(Join::step, (j, e), r),
    ensures
        r is Open <==> *old(j) is Connecting && e == JoinEvent::Done(true),
        r is Greet <==> *old(j) is Opening && e == JoinEvent::Done(true),
        r is Listen <==> *old(j) is Greeting && e == JoinEvent::Done(true),
        r is Connect <==> *old(j) is Listening && (e matches JoinEvent::Heard(
            Some(VnetMsg::PeerList { .. }),
        )),
        r is Unexpected <==> *old(j) is Listening && (e matches JoinEvent::Heard(
            Some(VnetMsg::Hello { .. }),
        )),
        *old(j) is Listening && (e matches JoinEvent::Heard(
            Some(VnetMsg::PeerList { ip: Some(text), peers }),
        ) && text@ == dotted(ip)) && ip.bits != 0 ==> *final(j) == Join::Meeting(ip),
        r is Connect ==> (e matches JoinEvent::Heard(Some(VnetMsg::PeerList { ip: named, peers }))
            ==> r->Connect_0 == peers),
        r == JoinAction::Admit(ip) <==> *old(j) == Join::Meeting(ip),
        r matches JoinAction::Fail(why) ==> {
            &&& why is Connect <==> *old(j) is Connecting
            &&& why is Open <==> *old(j) is Opening
            &&& why is Greet <==> *old(j) is Greeting
            &&& why is InvalidPeerList <==> *old(j) is Listening && e == JoinEvent::Heard(None)
        },
        *final(j) is Over <==> r is Admit || r is Fail,
        *final(j) == Join::Opening(ip) <==> *old(j) == Join::Connecting(ip) && r is Open,
        *final(j) == Join::Greeting(ip) <==> *old(j) == Join::Opening(ip) && r is Greet,
        *final(j) == Join::Listening(ip) <==> *old(j) == Join::Greeting(ip) && r is Listen,
{
    if let JoinEvent::Heard(Some(VnetMsg::PeerList { ip: Some(text), .. })) = e {
        denoted_is_dotted(text@, ip);
    }
}

/// An answer is from a node exactly when it holds the dotted form of its address,
/// whichever that is but 0.0.0.0.
pub proof fn answer_is_heard(name: Option<String>, peers: Vec<PeerInfo>, r: Option<Ipv4>, ip: Ipv4)
    requires
        call_ensures(answer_address, (&name,), r),
    ensures
        r == answered_by(VnetMsg::PeerList { ip: name, peers }),
        r == Some(ip) <==> ip.bits != 0 && (name matches Some(text) && text@ == dotted(ip)),
{
    assert(r == answered_by(VnetMsg::PeerList { ip: name, peers }));
    if let Some(text) = name {
        denoted_is_dotted(text@, ip);
    }
}

/// An announced peer can be reached exactly when its address is in dotted form and its
/// ticket is one; it is to be reached at that address with that ticket. The address is
/// looked at first.
pub proof fn peer_is_reached_as_announced(
    info: PeerInfo,
    r: Result<PeerTarget, PeerError>,
    ip: Ipv4,
)
    requires
        call_ensures(peer_target, (&info,), r),
    ensures
        info.ip@ == dotted(ip) && ticket(info.ticket@) is Some ==> (r matches Ok(t) && t.ip == ip
            && t.ticket@ == ticket(info.ticket@)->0),
        info.ip@ == dotted(ip) && ticket(info.ticket@) is None ==> (r matches Err(
            PeerError::InvalidTicket(_),
        )),
        (r matches Err(PeerError::InvalidIp)) <==> forall|x: Ipv4| info.ip@ != #[trigger] dotted(x),
{
    denoted_is_dotted(info.ip@, ip);
    if let Some(x) = denoted(info.ip@) {
        denoted_is_dotted(info.ip@, x);
    }
}

} // verus!
