//! Length-prefixed frames: `[u32 total size][u32 payload size][payload]`, both
//! sizes big-endian. The total size counts the payload-size field and the
//! payload; the payload size counts the payload alone.

use vstd::prelude::*;
use vstd::utf8::{decode_utf8, encode_utf8, valid_utf8};

verus! {

/// Bytes in front of the payload: the total-size field and the payload-size field.
pub const HEADER_LEN: usize = 8;

/// Why a byte sequence could not be turned into a message.
#[derive(Clone, Copy, Debug, PartialEq, Eq, Structural)]
pub enum FramingError {
    /// The bytes end before the frame does.
    Truncated,
    /// The payload is not the text of any known message.
    MalformedPayload,
}

/// The four bytes of `value`, most significant first.
pub open spec fn be32(value: u32) -> Seq<u8> {
    seq![
        (value / 0x100_0000) as u8,
        ((value / 0x1_0000) % 0x100) as u8,
        ((value / 0x100) % 0x100) as u8,
        (value % 0x100) as u8,
    ]
}

/// The number that the first four bytes of `bytes` spell, most significant first.
pub open spec fn be32_value(bytes: Seq<u8>) -> int
    recommends
        bytes.len() >= 4,
{
    bytes[0] * 0x100_0000 + bytes[1] * 0x1_0000 + bytes[2] * 0x100 + bytes[3]
}

/// The frame that carries `payload`.
pub open spec fn frame(payload: Seq<u8>) -> Seq<u8>
    recommends
        payload.len() + 4 <= u32::MAX,
{
    be32((payload.len() + 4) as u32) + be32(payload.len() as u32) + payload
}

/// The payload size that the header of `bytes` announces.
pub open spec fn announced_payload_len(bytes: Seq<u8>) -> int
    recommends
        bytes.len() >= HEADER_LEN,
{
    be32_value(bytes.subrange(4, 8))
}

/// Whether `bytes` start with a whole frame: a header and as many payload bytes
/// as the header announces.
pub open spec fn holds_frame(bytes: Seq<u8>) -> bool {
    bytes.len() >= HEADER_LEN && bytes.len() >= HEADER_LEN + announced_payload_len(bytes)
}

/// The total-size field of the frame at the start of `bytes`.
pub open spec fn frame_total(bytes: Seq<u8>) -> int
    recommends
        holds_frame(bytes),
{
    be32_value(bytes.subrange(0, 4))
}

/// The payload of the frame at the start of `bytes`.
pub open spec fn frame_payload(bytes: Seq<u8>) -> Seq<u8>
    recommends
        holds_frame(bytes),
{
    bytes.subrange(HEADER_LEN as int, HEADER_LEN + announced_payload_len(bytes))
}

/// A frame taken from the front of a byte sequence.
#[derive(Clone, Debug, PartialEq, Eq)]
pub struct Frame {
    /// The total-size field as it stood on the wire. It is carried along and not
    /// held against the payload size.
    pub total_size: u32,
    /// The payload bytes.
    pub payload: Vec<u8>,
}

/// The digits of a number in base 256 are the bytes it was put together from.
proof fn be32_digits(b0: u8, b1: u8, b2: u8, b3: u8)
    by (bit_vector)
    ensures
        ({
            let v = b0 as u32 * 0x100_0000 + b1 as u32 * 0x1_0000 + b2 as u32 * 0x100 + b3 as u32;
            &&& v <= 0xffff_ffff
            &&& v / 0x100_0000 == b0 as u32
            &&& (v / 0x1_0000) % 0x100 == b1 as u32
            &&& (v / 0x100) % 0x100 == b2 as u32
            &&& v % 0x100 == b3 as u32
        }),
{
}

/// Four bytes spell a number that fits `u32`, and spelling it again gives the
/// same bytes.
pub proof fn be32_of_value(bytes: Seq<u8>)
    requires
        bytes.len() == 4,
    ensures
        0 <= be32_value(bytes) <= u32::MAX,
        be32(be32_value(bytes) as u32) == bytes,
{
    be32_digits(bytes[0], bytes[1], bytes[2], bytes[3]);
    assert(be32(be32_value(bytes) as u32) =~= bytes);
}

/// Spelling a number and reading it back gives the number.
pub proof fn be32_round_trip(value: u32)
    ensures
        be32(value).len() == 4,
        be32_value(be32(value)) == value,
{
}

/// Appends the four bytes of `value`, most significant first.
pub fn write_u32_be(out: &mut Vec<u8>, value: u32)
    ensures
        final(out)@ == old(out)@ + be32(value),
{
    out.push((value / 0x100_0000) as u8);
    out.push(((value / 0x1_0000) % 0x100) as u8);
    out.push(((value / 0x100) % 0x100) as u8);
    out.push((value % 0x100) as u8);
    assert(out@ =~= old(out)@ + be32(value));
}

/// The big-endian number in the four bytes from `at` on.
fn be32_at(bytes: &[u8], at: usize) -> (value: u32)
    requires
        at + 4 <= bytes@.len(),
    ensures
        value == be32_value(bytes@.subrange(at as int, at + 4)),
{
    let b0: u32 = bytes[at] as u32;
    let b1: u32 = bytes[at + 1] as u32;
    let b2: u32 = bytes[at + 2] as u32;
    let b3: u32 = bytes[at + 3] as u32;
    b0 * 0x100_0000 + b1 * 0x1_0000 + b2 * 0x100 + b3
}

/// Reads the big-endian number in the four bytes from `at` on, or nothing where
/// there are not four bytes from there on.
pub fn read_u32_be(bytes: &[u8], at: usize) -> (value: Option<u32>)
    ensures
        match value {
            Some(v) => at + 4 <= bytes@.len() && v == be32_value(
                bytes@.subrange(at as int, at + 4),
            ),
            None => at + 4 > bytes@.len(),
        },
{
    let len: usize = bytes.len();
    if len >= 4 && at <= len - 4 {
        Some(be32_at(bytes, at))
    } else {
        None
    }
}

/// Builds the frame that carries `payload`, or nothing where its size does not
/// fit the total-size field.
pub fn encode_frame(payload: &[u8]) -> (out: Option<Vec<u8>>)
    ensures
        match out {
            Some(bytes) => payload@.len() + 4 <= u32::MAX && bytes@ == frame(payload@),
            None => payload@.len() + 4 > u32::MAX,
        },
{
    let len: usize = payload.len();
    if len > 0xffff_fffb {
        return None;
    }
    let mut out: Vec<u8> = Vec::new();
    write_u32_be(&mut out, (len + 4) as u32);
    write_u32_be(&mut out, len as u32);
    out.extend_from_slice(payload);
    assert(out@ =~= frame(payload@));
    Some(out)
}

/// Takes the frame at the front of `bytes`. The bytes behind it are left to the
/// caller, who finds them behind the header and the payload.
pub fn decode_frame(bytes: &[u8]) -> (result: Result<Frame, FramingError>)
    ensures
        match result {
            Ok(f) => {
                &&& holds_frame(bytes@)
                &&& f.total_size == frame_total(bytes@)
                &&& f.payload@ == frame_payload(bytes@)
            },
            Err(e) => !holds_frame(bytes@) && e == FramingError::Truncated,
        },
{
    if bytes.len() < HEADER_LEN {
        return Err(FramingError::Truncated);
    }
    let total_size: u32 = be32_at(bytes, 0);
    let announced: u32 = be32_at(bytes, 4);
    if bytes.len() - HEADER_LEN < announced as usize {
        return Err(FramingError::Truncated);
    }
    let mut payload: Vec<u8> = Vec::new();
    let end: usize = HEADER_LEN + announced as usize;
    let mut i: usize = HEADER_LEN;
    while i < end
        invariant
            HEADER_LEN <= i <= end <= bytes@.len(),
            payload@ == bytes@.subrange(HEADER_LEN as int, i as int),
        decreases end - i,
    {
        payload.push(bytes[i]);
        i += 1;
    }
    Ok(Frame { total_size, payload })
}

/// A frame that was encoded decodes to its payload, whatever follows it on the
/// wire, and its total-size field counts the payload-size field and the payload.
pub proof fn frame_round_trip(payload: Seq<u8>, rest: Seq<u8>)
    requires
        payload.len() + 4 <= u32::MAX,
    ensures
        holds_frame(frame(payload) + rest),
        frame_payload(frame(payload) + rest) == payload,
        frame_total(frame(payload) + rest) == payload.len() + 4,
        frame(payload).len() == HEADER_LEN + payload.len(),
{
    let bytes = frame(payload) + rest;
    be32_round_trip((payload.len() + 4) as u32);
    be32_round_trip(payload.len() as u32);
    assert(bytes.subrange(0, 4) =~= be32((payload.len() + 4) as u32));
    assert(bytes.subrange(4, 8) =~= be32(payload.len() as u32));
    assert(frame_payload(bytes) =~= payload);
}

/// A frame cut short at any place holds no frame: decoding it reports
/// truncation.
pub proof fn truncated_frame_holds_none(payload: Seq<u8>, cut: int)
    requires
        payload.len() + 4 <= u32::MAX,
        0 <= cut < frame(payload).len(),
    ensures
        !holds_frame(frame(payload).take(cut)),
{
    let whole = frame(payload);
    let part = whole.take(cut);
    be32_round_trip(payload.len() as u32);
    if cut >= HEADER_LEN {
        assert(part.subrange(4, 8) =~= be32(payload.len() as u32));
    }
}

/// `String::from_utf8` of the standard library. It gives the text that the
/// bytes encode in UTF-8, and nothing where the bytes are not UTF-8.
#[verifier::external_body]
fn text_of_utf8(bytes: Vec<u8>) -> (text: Option<String>)
    ensures
        text.is_some() == valid_utf8(bytes@),
        text matches Some(t) ==> t@ == decode_utf8(bytes@),
{
    String::from_utf8(bytes).ok()
}

/// The text of a payload. A payload that is not UTF-8 is the text of no
/// message.
pub fn payload_text(payload: Vec<u8>) -> (result: Result<String, FramingError>)
    ensures
        match result {
            Ok(t) => valid_utf8(payload@) && t@ == decode_utf8(payload@),
            Err(e) => !valid_utf8(payload@) && e == FramingError::MalformedPayload,
        },
{
    match text_of_utf8(payload) {
        Some(text) => Ok(text),
        None => Err(FramingError::MalformedPayload),
    }
}

/// Builds the frame that carries `text`, or nothing where the text is too long
/// for a frame.
pub fn encode_text(text: &str) -> (out: Option<Vec<u8>>)
    ensures
        match out {
            Some(bytes) => encode_utf8(text@).len() + 4 <= u32::MAX && bytes@ == frame(
                encode_utf8(text@),
            ),
            None => encode_utf8(text@).len() + 4 > u32::MAX,
        },
{
    encode_frame(text.as_bytes())
}

/// Takes the frame at the front of `bytes` and gives its text, with the number
/// of bytes that the frame took.
pub fn decode_text(bytes: &[u8]) -> (result: Result<(String, usize), FramingError>)
    ensures
        match result {
            Ok((t, n)) => {
                &&& holds_frame(bytes@)
                &&& valid_utf8(frame_payload(bytes@))
                &&& t@ == decode_utf8(frame_payload(bytes@))
                &&& n == HEADER_LEN + frame_payload(bytes@).len()
            },
            Err(FramingError::Truncated) => !holds_frame(bytes@),
            Err(FramingError::MalformedPayload) => holds_frame(bytes@) && !valid_utf8(
                frame_payload(bytes@),
            ),
        },
{
    match decode_frame(bytes) {
        Err(e) => Err(e),
        Ok(found) => {
            let available: usize = bytes.len();
            assert(HEADER_LEN + found.payload@.len() <= available);
            let taken: usize = HEADER_LEN + found.payload.len();
            match payload_text(found.payload) {
                Ok(text) => Ok((text, taken)),
                Err(e) => Err(e),
            }
        },
    }
}

/// A text that was framed comes back as it was, whatever follows the frame on
/// the wire.
pub proof fn text_round_trip(text: Seq<char>, rest: Seq<u8>)
    requires
        encode_utf8(text).len() + 4 <= u32::MAX,
    ensures
        holds_frame(frame(encode_utf8(text)) + rest),
        valid_utf8(frame_payload(frame(encode_utf8(text)) + rest)),
        decode_utf8(frame_payload(frame(encode_utf8(text)) + rest)) == text,
{
    frame_round_trip(encode_utf8(text), rest);
    vstd::utf8::encode_utf8_valid_utf8(text);
    vstd::utf8::encode_utf8_decode_utf8(text);
}

/// What the bytes read from a connection amount to.
#[derive(Clone, Debug, PartialEq, Eq)]
pub enum Reception {
    /// The bytes start with a whole frame.
    Frame(Frame),
    /// The frame is not whole yet and the connection is open: `missing` more
    /// bytes are to be read before looking again.
    More { missing: usize },
    /// The connection ended between two frames: the peer closed it in good
    /// order.
    Closed,
    /// The connection ended within a frame.
    Failed(FramingError),
}

/// Bytes that are missing before `bytes` start with a whole frame: what is left
/// of the header, or, once the header is there, what is left of the payload.
pub open spec fn missing_bytes(bytes: Seq<u8>) -> int {
    if bytes.len() < HEADER_LEN {
        HEADER_LEN - bytes.len()
    } else if bytes.len() < HEADER_LEN + announced_payload_len(bytes) {
        HEADER_LEN + announced_payload_len(bytes) - bytes.len()
    } else {
        0
    }
}

/// Nothing is missing exactly where the bytes start with a whole frame.
pub proof fn nothing_missing_is_a_frame(bytes: Seq<u8>)
    ensures
        missing_bytes(bytes) >= 0,
        missing_bytes(bytes) == 0 <==> holds_frame(bytes),
{
}

/// Looks at the bytes read so far from a connection that has `ended` or not,
/// and says what they amount to. A connection that ends with no byte of a
/// frame read was closed in good order; one that ends within a frame is
/// truncated.
pub fn receive(bytes: &[u8], ended: bool) -> (reception: Reception)
    ensures
        match reception {
            Reception::Frame(f) => {
                &&& holds_frame(bytes@)
                &&& f.total_size == frame_total(bytes@)
                &&& f.payload@ == frame_payload(bytes@)
            },
            Reception::More { missing } => {
                &&& !holds_frame(bytes@)
                &&& !ended
                &&& missing == missing_bytes(bytes@)
            },
            Reception::Closed => !holds_frame(bytes@) && ended && bytes@.len() == 0,
            Reception::Failed(e) => {
                &&& !holds_frame(bytes@)
                &&& ended
                &&& bytes@.len() > 0
                &&& e == FramingError::Truncated
            },
        },
{
    match decode_frame(bytes) {
        Ok(found) => Reception::Frame(found),
        Err(_) => {
            let len: usize = bytes.len();
            if !ended {
                if len < HEADER_LEN {
                    Reception::More { missing: HEADER_LEN - len }
                } else {
                    let announced: u32 = be32_at(bytes, 4);
                    Reception::More { missing: announced as usize - (len - HEADER_LEN) }
                }
            } else if len == 0 {
                Reception::Closed
            } else {
                Reception::Failed(FramingError::Truncated)
            }
        },
    }
}

} // verus!
