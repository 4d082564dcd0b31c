//! Length-prefixed frames: a type and a payload length, four bytes each in
//! network byte order, then the payload.

use vstd::prelude::*;

verus! {

/// Type of a frame that carries a control message.
pub const CTRL_TYPE: u32 = 0;

/// Type of a frame that carries an IP packet.
pub const DATA_TYPE: u32 = 1;

/// Number of bytes before the payload of a frame.
pub const HEADER_LEN: usize = 8;

/// A frame that was read.
#[derive(Debug, Clone, PartialEq, Eq)]
pub struct Frame {
    pub typ: u32,
    pub payload: Vec<u8>,
}

/// What a [`Frame`] stands for.
pub struct FrameView {
    pub typ: u32,
    pub payload: Seq<u8>,
}

impl View for Frame {
    type V = FrameView;

    open spec fn view(&self) -> FrameView {
        FrameView { typ: self.typ, payload: self.payload@ }
    }
}

/// Four bytes of a number below 2^32, the most significant first.
#[verifier::opaque]
pub open spec fn be32(n: nat) -> Seq<u8> {
    seq![
        (n / 0x100_0000) as u8,
        (n / 0x1_0000 % 0x100) as u8,
        (n / 0x100 % 0x100) as u8,
        (n % 0x100) as u8,
    ]
}

/// The number whose four bytes are given, the most significant first.
#[verifier::opaque]
pub open spec fn from_be32(b: Seq<u8>) -> nat {
    (b[0] * 0x100_0000 + b[1] * 0x1_0000 + b[2] * 0x100 + b[3]) as nat
}

/// The header of a frame. Its length field holds the payload's length modulo
/// 2^32.
pub open spec fn frame_header(typ: u32, len: nat) -> Seq<u8> {
    be32(typ as nat) + be32(len % 0x1_0000_0000)
}

/// All bytes of a frame.
pub open spec fn frame_bytes(typ: u32, payload: Seq<u8>) -> Seq<u8> {
    frame_header(typ, payload.len()) + payload
}

/// Progress in reading a frame.
#[derive(Debug, Clone, Copy, PartialEq, Eq)]
pub enum FrameReader {
    /// The header comes next.
    Header,
    /// The payload comes next.
    Payload { typ: u32, len: u32 },
}

/// Number of bytes that a reader needs next.
pub open spec fn bytes_wanted(r: FrameReader) -> nat {
    match r {
        FrameReader::Header => HEADER_LEN as nat,
        FrameReader::Payload { len, .. } => len as nat,
    }
}

/// Where a reader stands after the bytes that it needed, and the frame that they
/// complete.
pub open spec fn fed(r: FrameReader, chunk: Seq<u8>) -> (FrameReader, Option<FrameView>) {
    match r {
        FrameReader::Header => (
            FrameReader::Payload {
                typ: from_be32(chunk.take(4)) as u32,
                len: from_be32(chunk.skip(4)) as u32,
            },
            None,
        ),
        FrameReader::Payload { typ, .. } => (
            FrameReader::Header,
            Some(FrameView { typ, payload: chunk }),
        ),
    }
}

/// What a reader takes from the front of a stream, header then payload: the
/// frame and the rest, or nothing where the stream ends too early.
#[verifier::opaque]
pub open spec fn read_frame(stream: Seq<u8>) -> Option<(FrameView, Seq<u8>)> {
    let start = FrameReader::Header;
    let n = bytes_wanted(start) as int;
    if stream.len() < n {
        None
    } else {
        let (middle, _) = fed(start, stream.take(n));
        let rest = stream.skip(n);
        let m = bytes_wanted(middle) as int;
        if rest.len() < m {
            None
        } else {
            let (_, frame) = fed(middle, rest.take(m));
            Some((frame->0, rest.skip(m)))
        }
    }
}

/// The frames that a reader takes from a stream, one after the other.
pub open spec fn read_frames(stream: Seq<u8>) -> Seq<FrameView>
    decreases stream.len(),
{
    match read_frame(stream) {
        Some((frame, rest)) => if rest.len() < stream.len() {
            seq![frame] + read_frames(rest)
        } else {
            seq![]
        },
        None => seq![],
    }
}

/// The bytes of some frames, one after the other.
pub open spec fn all_frame_bytes(frames: Seq<FrameView>) -> Seq<u8>
    decreases frames.len(),
{
    if frames.len() == 0 {
        seq![]
    } else {
        frame_bytes(frames[0].typ, frames[0].payload) + all_frame_bytes(frames.skip(1))
    }
}

/// Four bytes of a number give the number back, and the other way round.
pub proof fn be32_round_trip(n: nat, b: Seq<u8>)
    requires
        n < 0x1_0000_0000,
        b.len() == 4,
    ensures
        be32(n).len() == 4,
        from_be32(be32(n)) == n,
        be32(from_be32(b)) == b,
        from_be32(b) < 0x1_0000_0000,
{
    reveal(be32);
    reveal(from_be32);
    let w = n as u32;
    assert(w == w / 0x100_0000 * 0x100_0000 + w / 0x1_0000 % 0x100 * 0x1_0000 + w / 0x100 % 0x100
        * 0x100 + w % 0x100 && w / 0x100_0000 < 0x100) by (bit_vector);
    let (p, q, r, s) = (b[0], b[1], b[2], b[3]);
    let v = from_be32(b) as u32;
    assert(v / 0x100_0000 == p && v / 0x1_0000 % 0x100 == q && v / 0x100 % 0x100 == r && v % 0x100
        == s) by (bit_vector)
        requires
            v == p * 0x100_0000 + q * 0x1_0000 + r * 0x100 + s,
    ;
    assert(be32(from_be32(b)) =~= b);
}

/// The header of a frame is read back.
proof fn header_is_read_back(typ: u32, len: nat)
    requires
        len < 0x1_0000_0000,
    ensures
        frame_header(typ, len).len() == 8,
        fed(FrameReader::Header, frame_header(typ, len)).0 == (FrameReader::Payload {
            typ,
            len: len as u32,
        }),
{
    let header = frame_header(typ, len);
    let four = seq![0u8, 0u8, 0u8, 0u8];
    be32_round_trip(typ as nat, four);
    be32_round_trip(len, four);
    assert(header.take(4) =~= be32(typ as nat));
    assert(header.skip(4) =~= be32(len));
}

/// A frame that was written is read back, and what follows it is left for the
/// next read, as long as the payload is shorter than 2^32 bytes.
pub proof fn written_frame_is_read_back(typ: u32, payload: Seq<u8>, rest: Seq<u8>)
    requires
        payload.len() < 0x1_0000_0000,
    ensures
        read_frame(frame_bytes(typ, payload) + rest) == Some((FrameView { typ, payload }, rest)),
{
    reveal(read_frame);
    let stream = frame_bytes(typ, payload) + rest;
    header_is_read_back(typ, payload.len());
    assert(stream.take(8) =~= frame_header(typ, payload.len()));
    assert(stream.skip(8) =~= payload + rest);
    assert((payload + rest).take(payload.len() as int) =~= payload);
    assert((payload + rest).skip(payload.len() as int) =~= rest);
}

/// A frame that is read from a stream is what the stream begins with: writing it
/// again gives the same bytes.
pub proof fn read_frame_is_written_again(stream: Seq<u8>)
    requires
        read_frame(stream) is Some,
    ensures
        ({
            let (frame, rest) = read_frame(stream)->0;
            frame_bytes(frame.typ, frame.payload) + rest == stream
        }),
{
    reveal(read_frame);
    let header = stream.take(8);
    be32_round_trip(0, header.take(4));
    be32_round_trip(0, header.skip(4));
    let (frame, rest) = read_frame(stream)->0;
    assert(header =~= header.take(4) + header.skip(4));
    assert(frame_bytes(frame.typ, frame.payload) + rest =~= stream);
}

/// The number of bytes of a frame.
proof fn frame_bytes_len(typ: u32, payload: Seq<u8>)
    ensures
        frame_bytes(typ, payload).len() == 8 + payload.len(),
{
    reveal(be32);
}

/// Reading a stream begins with its first frame.
proof fn first_frame_read(stream: Seq<u8>, frame: FrameView, rest: Seq<u8>)
    requires
        read_frame(stream) == Some((frame, rest)),
        rest.len() < stream.len(),
    ensures
        read_frames(stream) == seq![frame] + read_frames(rest),
{
}

/// A stream of frames is read back as the same frames in the same order.
pub proof fn written_frames_are_read_back(frames: Seq<FrameView>)
    requires
        forall|i: int| 0 <= i < frames.len() ==> (#[trigger] frames[i]).payload.len() < 0x1_0000_0000,
    ensures
        read_frames(all_frame_bytes(frames)) == frames,
    decreases frames.len(),
{
    if frames.len() > 0 {
        let typ = frames[0].typ;
        let payload = frames[0].payload;
        let more = frames.skip(1);
        let rest = all_frame_bytes(more);
        let bytes = frame_bytes(typ, payload);
        assert(read_frames(rest) == more) by {
            assert forall|i: int| 0 <= i < more.len() implies (#[trigger] more[i]).payload.len()
                < 0x1_0000_0000 by {
                assert(more[i] == frames[i + 1]);
            }
            written_frames_are_read_back(more);
        }
        assert(read_frames(bytes + rest) == seq![frames[0]] + read_frames(rest)) by {
            written_frame_is_read_back(typ, payload, rest);
            frame_bytes_len(typ, payload);
            assert(FrameView { typ, payload } == frames[0]);
            first_frame_read(bytes + rest, frames[0], rest);
        }
        assert(frames =~= seq![frames[0]] + more);
    } else {
        assert(all_frame_bytes(frames) =~= seq![]);
        reveal(read_frame);
    }
}

/// Appends the four bytes of a number.
fn push_be32(out: &mut Vec<u8>, n: u32)
    ensures
        final(out)@ == old(out)@ + be32(n as nat),
{
    out.push((n / 0x100_0000) as u8);
    out.push((n / 0x1_0000 % 0x100) as u8);
    out.push((n / 0x100 % 0x100) as u8);
    out.push((n % 0x100) as u8);
    reveal(be32);
    assert(out@ =~= old(out)@ + be32(n as nat));
}

/// The number in four bytes at a position.
fn get_be32(b: &Vec<u8>, at: usize) -> (n: u32)
    requires
        at + 4 <= b.len(),
    ensures
        n == from_be32(b@.subrange(at as int, at + 4)),
{
    reveal(from_be32);
    b[at] as u32 * 0x100_0000 + b[at + 1] as u32 * 0x1_0000 + b[at + 2] as u32 * 0x100
        + b[at + 3] as u32
}

/// The bytes to write for a frame.
pub fn write_frame(typ: u32, payload: &[u8]) -> (out: Vec<u8>)
    ensures
        out@ == frame_bytes(typ, payload@),
{
    let mut out: Vec<u8> = Vec::new();
    push_be32(&mut out, typ);
    let len = (payload.len() as u64 % 0x1_0000_0000) as u32;
    push_be32(&mut out, len);
    assert(out@ =~= frame_header(typ, payload@.len()));
    out.extend_from_slice(payload);
    assert(out@ =~= frame_bytes(typ, payload@));
    out
}

impl FrameReader {
    /// A reader at the beginning of a frame.
    pub fn new() -> (r: FrameReader)
        ensures
            r == FrameReader::Header,
    {
        FrameReader::Header
    }

    /// Number of bytes to read next.
    pub fn want(&self) -> (n: usize)
        ensures
            n == bytes_wanted(*self),
    {
        match self {
            FrameReader::Header => HEADER_LEN,
            FrameReader::Payload { len, .. } => *len as usize,
        }
    }

    /// Takes the bytes that were read, as many as were wanted, and gives the
    /// frame that they complete.
    pub fn feed(&mut self, chunk: Vec<u8>) -> (r: Option<Frame>)
        requires
            chunk@.len() == bytes_wanted(*old(self)),
        ensures
            *final(self) == fed(*old(self), chunk@).0,
            match r {
                Some(frame) => fed(*old(self), chunk@).1 == Some(frame@),
                None => fed(*old(self), chunk@).1 is None,
            },
    {
        match *self {
            FrameReader::Header => {
                assert(chunk@.subrange(0, 4) =~= chunk@.take(4));
                assert(chunk@.subrange(4, 8) =~= chunk@.skip(4));
                let typ = get_be32(&chunk, 0);
                let len = get_be32(&chunk, 4);
                *self = FrameReader::Payload { typ, len };
                None
            },
            FrameReader::Payload { typ, .. } => {
                *self = FrameReader::Header;
                Some(Frame { typ, payload: chunk })
            },
        }
    }

    /// What was being read, for the message where reading fails.
    pub fn context(&self) -> (r: &'static str)
        ensures
            r@ == match *self {
                FrameReader::Header => "read frame header"@,
                FrameReader::Payload { .. } => "read frame payload"@,
            },
    {
        match self {
            FrameReader::Header => "read frame header",
            FrameReader::Payload { .. } => "read frame payload",
        }
    }
}

/// A frame is its type and the length of its payload, four bytes each in base 256
/// with the first worth most, and then the payload.
pub proof fn frame_layout(typ: u32, payload: Seq<u8>)
    ensures
        ({
            let out = frame_bytes(typ, payload);
            &&& out.len() == 8 + payload.len()
            &&& ((out[0] * 256 + out[1]) * 256 + out[2]) * 256 + out[3] == typ
            &&& ((out[4] * 256 + out[5]) * 256 + out[6]) * 256 + out[7] == payload.len()
                % 0x1_0000_0000
            &&& out.skip(8) == payload
        }),
{
    let out = frame_bytes(typ, payload);
    let four = seq![0u8, 0u8, 0u8, 0u8];
    let len = payload.len() % 0x1_0000_0000;
    be32_round_trip(typ as nat, four);
    be32_round_trip(len, four);
    reveal(from_be32);
    let t = be32(typ as nat);
    let n = be32(len);
    assert(out[0] == t[0] && out[1] == t[1] && out[2] == t[2] && out[3] == t[3]);
    assert(out[4] == n[0] && out[5] == n[1] && out[6] == n[2] && out[7] == n[3]);
    assert(out.skip(8) =~= payload);
}

/// What is written for a frame is laid out so.
pub proof fn written_frame_layout(typ: u32, payload: &[u8], out: Vec<u8>)
    requires
        call_ensures(write_frame, (typ, payload), out),
    ensures
        out@.len() == 8 + payload@.len(),
        ((out@[0] * 256 + out@[1]) * 256 + out@[2]) * 256 + out@[3] == typ,
        ((out@[4] * 256 + out@[5]) * 256 + out@[6]) * 256 + out@[7] == payload@.len()
            % 0x1_0000_0000,
        out@.skip(8) == payload@,
{
    frame_layout(typ, payload@);
}

/// A reader wants the eight bytes of a header and then as many as the header says.
pub proof fn reader_wants_header_then_payload(r: FrameReader, n: usize)
    requires
        call_ensures(FrameReader::want, (&r,), n),
    ensures
        n == bytes_wanted(r),
        r is Header ==> n == 8,
        r is Payload ==> n == r->len,
{
}

/// A header completes no frame and tells its type and the length of its payload; the
/// payload completes the frame with that type, and the next header comes.
pub proof fn reader_takes_header_then_payload(
    r: &mut FrameReader,
    chunk: Vec<u8>,
    out: Option<Frame>,
)
    requires
        chunk@.len() == bytes_wanted(*old(r)),
        call_ensures(FrameReader::feed, (r, chunk), out),
    ensures
        *old(r) is Header ==> {
            let b = chunk@;
            &&& out is None
            &&& *final(r) is Payload
            &&& (*final(r))->typ == ((b[0] * 256 + b[1]) * 256 + b[2]) * 256 + b[3]
            &&& (*final(r))->len == ((b[4] * 256 + b[5]) * 256 + b[6]) * 256 + b[7]
        },
        *old(r) is Payload ==> {
            &&& *final(r) is Header
            &&& out matches Some(frame) && frame.typ == (*old(r))->typ && frame.payload@ == chunk@
        },
{
    reveal(from_be32);
    if *old(r) is Header {
        be32_round_trip(0, chunk@.take(4));
        be32_round_trip(0, chunk@.skip(4));
    }
}

/// A frame that was read holds the type and the payload that it stands for.
pub proof fn frame_view(frame: Frame)
    ensures
        frame@.typ == frame.typ,
        frame@.payload == frame.payload@,
{
}

} // verus!
