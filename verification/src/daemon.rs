//! A node of the virtual network: its own address, where packets go, and what
//! its loops do next.

use crate::addr::{
    denoted, denoted_is_dotted, derive_ip, destination_octets, dotted, dst_ip, hashed_ip,
    hashed_ip_in_vnet, in_vnet, is_vnet_ip, octets, octets_round_trip, packet_destination,
    vnet_octets, xxh3, Ipv4,
};
use crate::frame::{
    frame_bytes, frame_layout, read_frame, write_frame, written_frame_is_read_back, Frame, FrameView, CTRL_TYPE,
    DATA_TYPE,
};
use crate::pool::{touched, PeerConn, PeerPool};
use crate::vnet::{
    answered_by, join, join_after, joined_after_answer, JoinAction, JoinEvent,
};
use vstd::prelude::*;

verus! {

/// The public key that belongs to a secret key, both as bytes.
pub uninterp spec fn public_of(secret: Seq<u8>) -> Seq<u8>;

/// Calls `iroh::SecretKey::public`. Claims that the public key depends on the
/// bytes of the secret key alone.
#[verifier::external_body]
fn public_key(secret: &[u8; 32]) -> (r: [u8; 32])
    ensures
        r@ == public_of(secret@),
{
    *iroh::SecretKey::from_bytes(secret).public().as_bytes()
}

/// Why a node has no address.
#[derive(Debug, Clone, Copy, PartialEq, Eq, Structural)]
pub enum AddressError {
    /// The address that was asked for is none.
    InvalidIp,
}

impl AddressError {
    /// What to say of the failure.
    pub fn message(&self) -> (r: &'static str)
        ensures
            r@ == "invalid IP"@,
    {
        "invalid IP"
    }
}

/// The address of a node: the one asked for, or else the one that belongs to its
/// key.
pub fn self_address(ip: Option<&str>, secret: &[u8; 32]) -> (r: Result<Ipv4, AddressError>)
    ensures
        match ip {
            Some(text) => match denoted(text@) {
                Some(addr) => r == Ok::<Ipv4, AddressError>(addr),
                None => r == Err::<Ipv4, AddressError>(AddressError::InvalidIp),
            },
            None => r == Ok::<Ipv4, AddressError>(hashed_ip(xxh3(public_of(secret@)))),
        },
{
    match ip {
        Some(text) => match Ipv4::parse(text) {
            Some(addr) => Ok(addr),
            None => Err(AddressError::InvalidIp),
        },
        None => {
            let key = public_key(secret);
            Ok(derive_ip(&key))
        },
    }
}

/// A node that asks for no address gets one of the virtual network.
pub proof fn derived_address_in_vnet(secret: Seq<u8>)
    ensures
        in_vnet(hashed_ip(xxh3(public_of(secret)))),
{
    hashed_ip_in_vnet(xxh3(public_of(secret)));
}

/// The peer that a packet from this node is for: its destination, where that
/// is an address of the virtual network other than the node's own.
pub open spec fn packet_peer(packet: Seq<u8>, self_ip: Ipv4) -> Option<Ipv4> {
    match packet_destination(packet) {
        Some(dst) => if in_vnet(dst) && dst != self_ip {
            Some(dst)
        } else {
            None
        },
        None => None,
    }
}

/// What to do with a packet from this node.
#[derive(Debug)]
pub enum Route<H> {
    /// It is for nobody in the network.
    Ignore,
    /// It is for a peer that this node is not connected to.
    NoRoute(Ipv4),
    /// Send these bytes to the peer.
    Send { dst: Ipv4, to: H, bytes: Vec<u8> },
}

/// Whether `r` is what to do with a packet when the pool holds the peers `m`: the
/// packet goes in a data frame to the peer that it is for.
pub open spec fn routes<H: Clone>(
    m: Map<u32, PeerConn<H>>,
    self_ip: Ipv4,
    packet: Seq<u8>,
    r: Route<H>,
) -> bool {
    match packet_peer(packet, self_ip) {
        None => r is Ignore,
        Some(peer) => if m.contains_key(peer.bits) {
            r matches Route::Send { dst, to, bytes } && dst == peer && cloned(
                m[peer.bits].send,
                to,
            ) && bytes@ == frame_bytes(DATA_TYPE, packet)
        } else {
            r == Route::<H>::NoRoute(peer)
        },
    }
}

/// Finds the peer that a packet is for and frames the packet. Of the pool only
/// the time of that peer's last use changes.
pub fn route_packet<H: Clone>(
    pool: &mut PeerPool<H>,
    self_ip: Ipv4,
    packet: &[u8],
    now: u64,
) -> (r: Route<H>)
    ensures
        routes(old(pool)@, self_ip, packet@, r),
        final(pool)@ == match packet_peer(packet@, self_ip) {
            Some(peer) => touched(old(pool)@, peer, now),
            None => old(pool)@,
        },
{
    let dst = match dst_ip(packet) {
        Some(dst) => dst,
        None => return Route::Ignore,
    };
    if !is_vnet_ip(dst) || dst == self_ip {
        return Route::Ignore;
    }
    match pool.get_send(dst, now) {
        Some(to) => Route::Send { dst, to, bytes: write_frame(DATA_TYPE, packet) },
        None => Route::NoRoute(dst),
    }
}

/// A node that joined through another reaches it: once the stream is kept as
/// joining says, and as long as it is, every packet for the address that the other
/// node named goes out on that stream in a data frame.
pub proof fn joined_node_is_reached<H: Clone>(
    self_ip: Ipv4,
    events: Seq<JoinEvent>,
    e: JoinEvent,
    under: Ipv4,
    other: Ipv4,
    pool: Map<u32, PeerConn<H>>,
    stream: H,
    packet: Seq<u8>,
    r: Route<H>,
)
    requires
        join(join_after(self_ip, events), e).1 == JoinAction::Admit(under),
        events.last() matches JoinEvent::Heard(Some(msg)) && answered_by(msg) == Some(other),
        pool.contains_key(under.bits),
        pool[under.bits].send == stream,
        packet_destination(packet) == Some(other),
        in_vnet(other),
        other != self_ip,
        routes(pool, self_ip, packet, r),
    ensures
        under == other,
        r matches Route::Send { dst, to, bytes } && dst == other && cloned(stream, to) && bytes@
            == frame_bytes(DATA_TYPE, packet),
{
    joined_after_answer(self_ip, events, e, under);
}

/// What happened while the frames of a peer are read.
#[derive(Debug)]
pub enum ReaderEvent {
    /// A frame came.
    Frame(Frame),
    /// No frame could be read.
    ReadFailed,
    /// A packet was handed on, or could not be.
    Delivered(bool),
}

/// What the reader does next.
#[derive(Debug)]
pub enum ReaderAction {
    /// Read the next frame.
    Read,
    /// Hand the packet on to the network device.
    Deliver(Vec<u8>),
    /// Stop reading.
    Stop,
}

/// The packet that a frame of a peer carries, if any.
pub open spec fn carried(frame: FrameView) -> Option<Seq<u8>> {
    if frame.typ == DATA_TYPE {
        Some(frame.payload)
    } else {
        None
    }
}

/// The packets of data frames are handed on, other frames are passed over, and
/// any failure ends the reading.
pub fn reader_step(event: ReaderEvent) -> (r: ReaderAction)
    ensures
        match event {
            ReaderEvent::Frame(frame) => match carried(frame@) {
                Some(bytes) => r matches ReaderAction::Deliver(packet) && packet@ == bytes,
                None => r is Read,
            },
            ReaderEvent::ReadFailed => r is Stop,
            ReaderEvent::Delivered(sent) => if sent {
                r is Read
            } else {
                r is Stop
            },
        },
{
    match event {
        ReaderEvent::Frame(frame) => {
            if frame.typ == CTRL_TYPE {
                ReaderAction::Read
            } else if frame.typ == DATA_TYPE {
                ReaderAction::Deliver(frame.payload)
            } else {
                ReaderAction::Read
            }
        },
        ReaderEvent::ReadFailed => ReaderAction::Stop,
        ReaderEvent::Delivered(sent) => if sent {
            ReaderAction::Read
        } else {
            ReaderAction::Stop
        },
    }
}

/// A packet that one node routes to another is read there from the stream and
/// handed on as it was, and what follows it in the stream is left for the next
/// read.
pub proof fn routed_packet_is_delivered(packet: Seq<u8>, rest: Seq<u8>)
    requires
        packet.len() < 0x1_0000_0000,
    ensures
        ({
            let read = read_frame(frame_bytes(DATA_TYPE, packet) + rest);
            read matches Some((frame, left)) && carried(frame) == Some(packet) && left == rest
        }),
{
    written_frame_is_read_back(DATA_TYPE, packet, rest);
}

/// A control frame carries no packet.
pub proof fn control_frame_is_passed_over(payload: Seq<u8>)
    ensures
        carried(FrameView { typ: CTRL_TYPE, payload }) is None,
{
}

/// What happened in the main loop of a node.
#[derive(Debug, Clone, Copy, PartialEq, Eq, Structural)]
pub enum DaemonEvent {
    /// The network device gave a packet of this many bytes.
    TunRead(usize),
    /// Reading from the network device failed.
    TunFailed,
    /// A peer reader handed a packet on.
    PeerPacket,
    /// A connection came in.
    Incoming,
    /// A connection came in and could not be completed.
    IncomingFailed,
    /// No more connections will come in.
    EndpointClosed,
    /// The user asked to stop.
    Interrupt,
}

/// What the main loop does next.
#[derive(Debug, Clone, Copy, PartialEq, Eq, Structural)]
pub enum DaemonAction {
    /// Route the packet.
    Route,
    /// Write the packet to the network device.
    WriteTun,
    /// Meet the node that connected.
    Greet,
    /// Wait for the next event.
    Wait,
    /// Leave the loop.
    Stop,
}

/// What the main loop does on an event: it ends when the device gives an empty
/// packet, when no more connections come in, and when the user asks.
pub fn daemon_step(event: DaemonEvent) -> (r: DaemonAction)
    ensures
        r == DaemonAction::Stop <==> event == DaemonEvent::TunRead(0) || event
            == DaemonEvent::EndpointClosed || event == DaemonEvent::Interrupt,
        r == DaemonAction::Route <==> event is TunRead && event != DaemonEvent::TunRead(0),
        r == DaemonAction::WriteTun <==> event == DaemonEvent::PeerPacket,
        r == DaemonAction::Greet <==> event == DaemonEvent::Incoming,
{
    match event {
        DaemonEvent::TunRead(n) => if n == 0 {
            DaemonAction::Stop
        } else {
            DaemonAction::Route
        },
        DaemonEvent::TunFailed => DaemonAction::Wait,
        DaemonEvent::PeerPacket => DaemonAction::WriteTun,
        DaemonEvent::Incoming => DaemonAction::Greet,
        DaemonEvent::IncomingFailed => DaemonAction::Wait,
        DaemonEvent::EndpointClosed => DaemonAction::Stop,
        DaemonEvent::Interrupt => DaemonAction::Stop,
    }
}

/// A packet is routed to the peer that its destination names, which is never the
/// node itself and always an address of the virtual network.
pub proof fn routed_to_destination(packet: Seq<u8>, self_ip: Ipv4, peer: Ipv4)
    requires
        packet_peer(packet, self_ip) == Some(peer),
    ensures
        packet_destination(packet) == Some(peer),
        peer != self_ip,
        in_vnet(peer),
        packet.len() >= 20,
{
}

/// A packet goes to the peer that bytes 16 to 19 of its header name, where these are
/// an address of the virtual network other than the node's own, and to nobody else. It
/// goes there whole, in a data frame, and makes the present time that of the peer's
/// last use.
pub proof fn packet_goes_to_its_destination<H: Clone>(
    pool: &mut PeerPool<H>,
    self_ip: Ipv4,
    packet: &[u8],
    now: u64,
    r: Route<H>,
    peer: Ipv4,
)
    requires
        call_ensures(route_packet::<H>, (pool, self_ip, packet, now), r),
        packet@.len() >= 20,
        packet@[0] / 16 == 4,
        octets(peer) == (packet@[16], packet@[17], packet@[18], packet@[19]),
    ensures
        r is Ignore <==> packet@[16] != 100 || packet@[17] < 64 || packet@[17] >= 128 || peer
            == self_ip,
        r is NoRoute <==> r !is Ignore && !old(pool)@.contains_key(peer.bits),
        r is NoRoute ==> r->NoRoute_0 == peer,
        r matches Route::Send { dst, to, bytes } ==> {
            &&& dst == peer
            &&& cloned(old(pool)@[peer.bits].send, to)
            &&& bytes@.len() == 8 + packet@.len()
            &&& ((bytes@[0] * 256 + bytes@[1]) * 256 + bytes@[2]) * 256 + bytes@[3] == 1
            &&& bytes@.skip(8) == packet@
            &&& final(pool)@[peer.bits].last_used == now
        },
{
    destination_octets(packet@);
    let found = packet_destination(packet@)->0;
    octets_round_trip(found, 0, 0, 0, 0);
    octets_round_trip(peer, 0, 0, 0, 0);
    assert(found == peer);
    vnet_octets(peer);
    frame_layout(DATA_TYPE, packet@);
}

/// Bytes that are no IPv4 packet go nowhere, and the pool stays as it is.
pub proof fn other_bytes_go_nowhere<H: Clone>(
    pool: &mut PeerPool<H>,
    self_ip: Ipv4,
    packet: &[u8],
    now: u64,
    r: Route<H>,
)
    requires
        call_ensures(route_packet::<H>, (pool, self_ip, packet, now), r),
        packet@.len() < 20 || packet@[0] / 16 != 4,
    ensures
        r is Ignore,
        final(pool)@ == old(pool)@,
{
    destination_octets(packet@);
}

/// Routing a packet changes no peer but in the time of its last use.
pub proof fn routing_changes_times_only<H: Clone>(
    pool: &mut PeerPool<H>,
    self_ip: Ipv4,
    packet: &[u8],
    now: u64,
    r: Route<H>,
    other: u32,
)
    requires
        call_ensures(route_packet::<H>, (pool, self_ip, packet, now), r),
    ensures
        final(pool)@.contains_key(other) <==> old(pool)@.contains_key(other),
        old(pool)@.contains_key(other) ==> final(pool)@[other].send == old(pool)@[other].send && (
        final(pool)@[other].last_used == old(pool)@[other].last_used || final(pool)@[other].last_used == now),
{
}

/// A node has the address that was asked for, where the text is the dotted form of
/// one; a node that asked for none has one of the virtual network, numbered by the
/// hash of its public key.
pub proof fn node_has_its_address(
    ip: Option<&str>,
    secret: [u8; 32],
    r: Result<Ipv4, AddressError>,
    addr: Ipv4,
)
    requires
        call_ensures(self_address, (ip, &secret), r),
    ensures
        ip matches Some(text) ==> {
            &&& r == Ok::<Ipv4, AddressError>(addr) <==> text@ == dotted(addr)
            &&& r is Err <==> forall|x: Ipv4| text@ != #[trigger] dotted(x)
        },
        ip is None ==> {
            &&& r is Ok
            &&& r->Ok_0.bits % 0x40_0000 == xxh3(public_of(secret@)) % 0x40_0000
            &&& octets(r->Ok_0).0 == 100
            &&& 64 <= octets(r->Ok_0).1 < 128
        },
{
    match ip {
        Some(text) => {
            denoted_is_dotted(text@, addr);
            if r is Ok {
                denoted_is_dotted(text@, r->Ok_0);
            }
        },
        None => {
            assert(0x6440_0000int % 0x40_0000 == 0);
            vnet_octets(r->Ok_0);
        },
    }
}

/// A frame hands its payload on, as it is, exactly when its type is that of data.
/// Reading stops exactly where a frame cannot be read or a packet not be handed on.
pub proof fn reader_acts(event: ReaderEvent, r: ReaderAction)
    requires
        call_ensures(reader_step, (event,), r),
    ensures
        r is Deliver <==> (event matches ReaderEvent::Frame(frame) && frame.typ == 1),
        r is Deliver ==> r->Deliver_0@ == event->Frame_0.payload@,
        r is Stop <==> event is ReadFailed || (event matches ReaderEvent::Delivered(sent) && !sent),
{
}

/// The main loop routes every packet that the device gives, hands every packet of a
/// peer to the device and meets every node that connects. It ends exactly where the
/// device gives an empty packet, no connection will come, or the user asks.
pub proof fn daemon_acts(event: DaemonEvent, r: DaemonAction)
    requires
        call_ensures(daemon_step, (event,), r),
    ensures
        r is Route <==> (event matches DaemonEvent::TunRead(n) && n > 0),
        r is WriteTun <==> event is PeerPacket,
        r is Greet <==> event is Incoming,
        r is Wait <==> event is TunFailed || event is IncomingFailed,
        r is Stop <==> event is EndpointClosed || event is Interrupt || (
        event matches DaemonEvent::TunRead(n) && n == 0),
{
}

} // verus!
