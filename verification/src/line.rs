//! Messages on a control stream: one line of text each, ended by a newline.

use vstd::prelude::*;
use vstd::string::*;
use vstd::utf8::{
    char_is_scalar, decode_utf8, encode_scalar, encode_utf8, encode_utf8_decode_utf8,
    encode_utf8_valid_utf8, has_width_1_encoding, valid_utf8,
};

verus! {

/// The byte that ends a line.
pub const NEWLINE: u8 = 10;

/// The error of `String::from_utf8`.
#[verifier::external_type_specification]
#[verifier::external_body]
pub struct ExFromUtf8Error(std::string::FromUtf8Error);

/// Why no line could be read.
#[derive(Debug)]
pub enum LineError {
    /// The stream ended before the line did.
    Closed,
    /// The line is no valid UTF-8.
    Invalid(std::string::FromUtf8Error),
}

/// Calls `String::from_utf8`. Claims that it succeeds exactly on valid UTF-8 and
/// then gives the characters that the bytes encode.
#[verifier::external_body]
fn utf8_string(bytes: Vec<u8>) -> (r: Result<String, std::string::FromUtf8Error>)
    ensures
        r is Ok <==> valid_utf8(bytes@),
        r is Ok ==> r->Ok_0@ == decode_utf8(bytes@),
{
    String::from_utf8(bytes)
}

/// The bytes of a message: its text and a newline.
pub open spec fn line_bytes(text: Seq<char>) -> Seq<u8> {
    encode_utf8(text).push(NEWLINE)
}

/// What one more byte of a stream brings to the bytes of a line so far.
pub enum LineStep {
    /// The line goes on.
    More(Seq<u8>),
    /// The line is complete.
    Text(Seq<char>),
    /// The line is complete and no valid UTF-8.
    Bad,
}

/// The step that a byte makes.
pub open spec fn line_step(buf: Seq<u8>, byte: u8) -> LineStep {
    if byte != NEWLINE {
        LineStep::More(buf.push(byte))
    } else if valid_utf8(buf) {
        LineStep::Text(decode_utf8(buf))
    } else {
        LineStep::Bad
    }
}

/// What a reader makes of the bytes of a stream, starting with those of a line
/// so far: the texts of the lines in order, with `None` for one that is no valid
/// UTF-8. A line that the stream does not end is not among them.
pub open spec fn read_lines(buf: Seq<u8>, stream: Seq<u8>) -> Seq<Option<Seq<char>>>
    decreases stream.len(),
{
    if stream.len() == 0 {
        seq![]
    } else {
        match line_step(buf, stream[0]) {
            LineStep::More(longer) => read_lines(longer, stream.skip(1)),
            LineStep::Text(text) => seq![Some(text)] + read_lines(seq![], stream.skip(1)),
            LineStep::Bad => seq![None] + read_lines(seq![], stream.skip(1)),
        }
    }
}

/// The bytes of some messages, one after the other.
pub open spec fn all_line_bytes(texts: Seq<Seq<char>>) -> Seq<u8>
    decreases texts.len(),
{
    if texts.len() == 0 {
        seq![]
    } else {
        line_bytes(texts[0]) + all_line_bytes(texts.skip(1))
    }
}

/// The encoding of a character other than the newline holds no newline byte.
proof fn scalar_without_newline(c: char)
    requires
        c != '\n',
    ensures
        forall|i: int|
            0 <= i < encode_scalar(c as u32).len() ==> #[trigger] encode_scalar(c as u32)[i]
                != NEWLINE,
{
    char_is_scalar(c);
    let u = c as u32;
    assert(u != 10);
    if has_width_1_encoding(u) {
        assert((u & 0x7f) as u8 != 10) by (bit_vector)
            requires
                u <= 0x7f,
                u != 10,
        ;
    }
    assert(0xc0u8 | ((u >> 6) & 0x1f) as u8 != 10) by (bit_vector);
    assert(0xe0u8 | ((u >> 12) & 0x0f) as u8 != 10) by (bit_vector);
    assert(0xf0u8 | ((u >> 18) & 0x7) as u8 != 10) by (bit_vector);
    assert(0x80u8 | (u & 0x3f) as u8 != 10) by (bit_vector);
    assert(0x80u8 | ((u >> 6) & 0x3f) as u8 != 10) by (bit_vector);
    assert(0x80u8 | ((u >> 12) & 0x3f) as u8 != 10) by (bit_vector);
}

/// The encoding of a text without newline holds no newline byte.
proof fn text_without_newline(text: Seq<char>)
    requires
        forall|i: int| 0 <= i < text.len() ==> text[i] != '\n',
    ensures
        forall|i: int|
            0 <= i < encode_utf8(text).len() ==> #[trigger] encode_utf8(text)[i] != NEWLINE,
    decreases text.len(),
{
    if text.len() > 0 {
        let rest = text.drop_first();
        assert forall|i: int| 0 <= i < rest.len() implies rest[i] != '\n' by {
            assert(rest[i] == text[i + 1]);
        }
        scalar_without_newline(text[0]);
        text_without_newline(rest);
        let head = encode_scalar(text[0] as u32);
        let tail = encode_utf8(rest);
        assert(encode_utf8(text) == head + tail);
        assert forall|i: int| 0 <= i < encode_utf8(text).len() implies #[trigger] encode_utf8(
            text,
        )[i] != NEWLINE by {
            if i < head.len() {
                assert(encode_utf8(text)[i] == head[i]);
            } else {
                assert(encode_utf8(text)[i] == tail[i - head.len()]);
            }
        }
    }
}

/// Bytes without newline only make the line longer.
proof fn bytes_before_newline(buf: Seq<u8>, bytes: Seq<u8>, rest: Seq<u8>)
    requires
        forall|i: int| 0 <= i < bytes.len() ==> #[trigger] bytes[i] != NEWLINE,
    ensures
        read_lines(buf, bytes + rest) == read_lines(buf + bytes, rest),
    decreases bytes.len(),
{
    if bytes.len() == 0 {
        assert(bytes + rest =~= rest);
        assert(buf + bytes =~= buf);
    } else {
        let more = bytes.skip(1);
        assert forall|i: int| 0 <= i < more.len() implies #[trigger] more[i] != NEWLINE by {
            assert(more[i] == bytes[i + 1]);
        }
        assert((bytes + rest)[0] == bytes[0]);
        assert((bytes + rest).skip(1) =~= more + rest);
        bytes_before_newline(buf.push(bytes[0]), more, rest);
        assert(buf.push(bytes[0]) + more =~= buf + bytes);
    }
}

/// A message that was written is read back, and what follows it is left for the
/// next read, as long as its text holds no newline.
pub proof fn written_line_is_read_back(text: Seq<char>, rest: Seq<u8>)
    requires
        forall|i: int| 0 <= i < text.len() ==> text[i] != '\n',
    ensures
        read_lines(seq![], line_bytes(text) + rest) == seq![Some(text)] + read_lines(seq![], rest),
{
    let bytes = encode_utf8(text);
    text_without_newline(text);
    encode_utf8_valid_utf8(text);
    encode_utf8_decode_utf8(text);
    let tail = seq![NEWLINE] + rest;
    assert(line_bytes(text) + rest =~= bytes + tail);
    bytes_before_newline(seq![], bytes, tail);
    assert(seq![] + bytes =~= bytes);
    assert(tail.skip(1) =~= rest);
}

/// Messages that were written one after the other are read back in order, as
/// long as no text holds a newline.
pub proof fn written_lines_are_read_back(texts: Seq<Seq<char>>)
    requires
        forall|k: int, i: int|
            0 <= k < texts.len() && 0 <= i < texts[k].len() ==> texts[k][i] != '\n',
    ensures
        read_lines(seq![], all_line_bytes(texts)) == texts.map_values(|t: Seq<char>| Some(t)),
    decreases texts.len(),
{
    if texts.len() > 0 {
        let rest = texts.skip(1);
        assert forall|k: int, i: int|
            0 <= k < rest.len() && 0 <= i < rest[k].len() implies rest[k][i] != '\n' by {
            assert(rest[k] == texts[k + 1]);
        }
        written_lines_are_read_back(rest);
        assert forall|i: int| 0 <= i < texts[0].len() implies texts[0][i] != '\n' by {
            assert(texts[0][i] == texts[0][i]);
        }
        written_line_is_read_back(texts[0], all_line_bytes(rest));
        assert(texts.map_values(|t: Seq<char>| Some(t)) =~= seq![Some(texts[0])]
            + rest.map_values(|t: Seq<char>| Some(t)));
    } else {
        assert(texts.map_values(|t: Seq<char>| Some(t)) =~= seq![]);
    }
}

/// The bytes to write for a message.
pub fn message_line(text: &str) -> (out: Vec<u8>)
    ensures
        out@ == line_bytes(text@),
{
    let mut out = text.as_bytes_vec();
    out.push(NEWLINE);
    out
}

/// A reader of one line.
#[derive(Debug)]
pub struct LineReader {
    buf: Vec<u8>,
}

impl View for LineReader {
    type V = Seq<u8>;

    /// The bytes of the line so far.
    closed spec fn view(&self) -> Seq<u8> {
        self.buf@
    }
}

impl LineReader {
    /// A reader at the beginning of a line.
    pub fn new() -> (r: LineReader)
        ensures
            r@ == Seq::<u8>::empty(),
    {
        LineReader { buf: Vec::new() }
    }

    /// Takes the next byte of the stream, or the news that there is none, and
    /// says what the line is once that is decided. The reader then is at the
    /// beginning of a line.
    pub fn read_line(&mut self, next: Option<u8>) -> (r: Option<Result<String, LineError>>)
        ensures
            match next {
                None => r matches Some(Err(LineError::Closed)) && final(self)@ == Seq::<
                    u8,
                >::empty(),
                Some(byte) => match line_step(old(self)@, byte) {
                    LineStep::More(longer) => r is None && final(self)@ == longer,
                    LineStep::Text(text) => {
                        &&& r matches Some(Ok(s)) && s@ == text
                        &&& final(self)@ == Seq::<u8>::empty()
                    },
                    LineStep::Bad => {
                        &&& r matches Some(Err(LineError::Invalid(_)))
                        &&& final(self)@ == Seq::<u8>::empty()
                    },
                },
            },
    {
        match next {
            None => {
                self.buf = Vec::new();
                Some(Err(LineError::Closed))
            },
            Some(byte) => {
                if byte != NEWLINE {
                    self.buf.push(byte);
                    return None;
                }
                let mut line: Vec<u8> = Vec::new();
                std::mem::swap(&mut line, &mut self.buf);
                match utf8_string(line) {
                    Ok(s) => Some(Ok(s)),
                    Err(e) => Some(Err(LineError::Invalid(e))),
                }
            },
        }
    }
}

/// A message is the UTF-8 of its text and one newline behind it.
pub proof fn message_layout(text: &str, out: Vec<u8>)
    requires
        call_ensures(message_line, (text,), out),
    ensures
        out@ == line_bytes(text@),
        out@ == encode_utf8(text@) + seq![10u8],
{
    assert(encode_utf8(text@).push(10u8) =~= encode_utf8(text@) + seq![10u8]);
}

/// A line is all bytes before the newline, decoded where they are valid UTF-8; what
/// follows the newline belongs to the next lines. Bytes that no newline follows are
/// no line.
pub proof fn line_ends_at_newline(bytes: Seq<u8>, rest: Seq<u8>)
    requires
        forall|i: int| 0 <= i < bytes.len() ==> #[trigger] bytes[i] != 10,
    ensures
        read_lines(seq![], bytes + seq![10u8] + rest) == seq![
            if valid_utf8(bytes) {
                Some(decode_utf8(bytes))
            } else {
                None
            },
        ] + read_lines(seq![], rest),
        read_lines(seq![], bytes) == Seq::<Option<Seq<char>>>::empty(),
{
    let tail = seq![10u8] + rest;
    assert(bytes + seq![10u8] + rest =~= bytes + tail);
    bytes_before_newline(seq![], bytes, tail);
    assert(seq![] + bytes =~= bytes);
    assert(tail.skip(1) =~= rest);
    assert(bytes + seq![] =~= bytes);
    bytes_before_newline(seq![], bytes, seq![]);
}

/// A byte other than the newline makes the line longer, the newline ends it, and the
/// end of the stream is an error; afterwards the next line begins.
pub proof fn reader_gathers_a_line(
    reader: &mut LineReader,
    next: Option<u8>,
    r: Option<Result<String, LineError>>,
)
    requires
        call_ensures(LineReader::read_line, (reader, next), r),
    ensures
        next is None ==> (r matches Some(Err(LineError::Closed))) && final(reader)@.len() == 0,
        next matches Some(b) && b != 10 ==> r is None && final(reader)@ == old(reader)@ + seq![
            next->0,
        ],
        next == Some(10u8) && valid_utf8(old(reader)@) ==> {
            &&& r matches Some(Ok(s)) && s@ == decode_utf8(old(reader)@)
            &&& final(reader)@.len() == 0
        },
        next == Some(10u8) && !valid_utf8(old(reader)@) ==> {
            &&& (r matches Some(Err(LineError::Invalid(_))))
            &&& final(reader)@.len() == 0
        },
{
    if next is Some {
        assert(old(reader)@.push(next->0) =~= old(reader)@ + seq![next->0]);
    }
}

} // verus!
