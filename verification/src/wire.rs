//! The fixed-width binary wire format: every request is exactly 9
//! bytes (a discriminant byte and two big-endian signed 32-bit
//! fields), every response exactly 4 bytes (one big-endian signed
//! 32-bit integer). There are no delimiters and no length prefixes.

use vstd::prelude::*;

verus! {

/// The value of the four bytes `b`, read as an unsigned 32-bit
/// big-endian integer.
pub open spec fn u32_be(b: Seq<u8>) -> int
    recommends
        b.len() == 4,
{
    b[0] * 0x100_0000 + b[1] * 0x1_0000 + b[2] * 0x100 + b[3]
}

/// The value of the four bytes `b`, read as a signed 32-bit big-endian
/// two's-complement integer.
pub open spec fn i32_be(b: Seq<u8>) -> int
    recommends
        b.len() == 4,
{
    if u32_be(b) < 0x8000_0000 {
        u32_be(b)
    } else {
        u32_be(b) - 0x1_0000_0000
    }
}

/// Four bytes always decode to a value representable as an `i32`:
/// decoding a well-framed field never fails.
pub proof fn lemma_i32_be_bounds(b: Seq<u8>)
    requires
        b.len() == 4,
    ensures
        -0x8000_0000 <= i32_be(b) < 0x8000_0000,
{
    assert(0 <= b[0] < 256 && 0 <= b[1] < 256 && 0 <= b[2] < 256 && 0 <= b[3] < 256);
}

/// Reads the signed 32-bit big-endian integer at `bytes[off..off + 4]`.
pub fn read_i32_be(bytes: &[u8], off: usize) -> (r: i32)
    requires
        off + 4 <= bytes@.len(),
    ensures
        r as int == i32_be(bytes@.subrange(off as int, off as int + 4)),
{
    let b0 = bytes[off] as u32;
    let b1 = bytes[off + 1] as u32;
    let b2 = bytes[off + 2] as u32;
    let b3 = bytes[off + 3] as u32;
    let u: u32 = b0 * 0x100_0000 + b1 * 0x1_0000 + b2 * 0x100 + b3;
    proof {
        let s = bytes@.subrange(off as int, off as int + 4);
        assert(s[0] == bytes@[off as int]);
        assert(s[1] == bytes@[off as int + 1]);
        assert(s[2] == bytes@[off as int + 2]);
        assert(s[3] == bytes@[off as int + 3]);
        assert(u == u32_be(s));
    }
    if u < 0x8000_0000 {
        u as i32
    } else {
        ((u - 0x8000_0000) as i32) + i32::MIN
    }
}

/// Encodes `v` as four big-endian two's-complement bytes.
pub fn encode_i32_be(v: i32) -> (out: Vec<u8>)
    ensures
        out@.len() == 4,
        i32_be(out@) == v as int,
{
    let u: u32 = if v >= 0 {
        v as u32
    } else {
        ((v - i32::MIN) as u32) + 0x8000_0000
    };
    let b3 = (u % 0x100) as u8;
    let u1 = u / 0x100;
    let b2 = (u1 % 0x100) as u8;
    let u2 = u1 / 0x100;
    let b1 = (u2 % 0x100) as u8;
    let b0 = (u2 / 0x100) as u8;
    let out = vec![b0, b1, b2, b3];
    proof {
        assert(u == u1 * 0x100 + b3);
        assert(u1 == u2 * 0x100 + b2);
        assert(u2 == b0 * 0x100 + b1);
        assert(u32_be(out@) == u);
    }
    out
}

/// The discriminant byte of an insert request: ASCII `I`.
pub const TAG_INSERT: u8 = 0x49;

/// The discriminant byte of a query request: ASCII `Q`.
pub const TAG_QUERY: u8 = 0x51;

/// A request to store `price` at `timestamp`; its first wire byte is
/// the discriminant `TAG_INSERT`.
#[derive(Debug, Clone, Copy, PartialEq, Eq)]
pub struct InsertMessage {
    pub tag: u8,
    pub timestamp: i32,
    pub price: i32,
}

/// A request for the truncated mean price over the closed range
/// `[mintime, maxtime]`; its first wire byte is the discriminant `TAG_QUERY`.
#[derive(Debug, Clone, Copy, PartialEq, Eq)]
pub struct QueryMessage {
    pub tag: u8,
    pub mintime: i32,
    pub maxtime: i32,
}

/// The reply to a query: one signed 32-bit average.
#[derive(Debug, Clone, Copy, PartialEq, Eq)]
pub struct Response {
    pub average: i32,
}

/// A decoded request. The wire format has exactly two recognized
/// message kinds; an unrecognized discriminant yields no message.
#[derive(Debug, Clone, Copy, PartialEq, Eq)]
pub enum Message {
    Insert(InsertMessage),
    Query(QueryMessage),
}

/// What a 9-byte frame decodes to: byte 0 picks the message kind, the
/// two payload fields follow as big-endian signed 32-bit integers, and
/// any other discriminant byte yields no message at all.
pub open spec fn spec_decode(frame: Seq<u8>) -> Option<Message>
    recommends
        frame.len() == 9,
{
    if frame[0] == TAG_INSERT {
        Some(
            Message::Insert(
                InsertMessage {
                    tag: frame[0],
                    timestamp: i32_be(frame.subrange(1, 5)) as i32,
                    price: i32_be(frame.subrange(5, 9)) as i32,
                },
            ),
        )
    } else if frame[0] == TAG_QUERY {
        Some(
            Message::Query(
                QueryMessage {
                    tag: frame[0],
                    mintime: i32_be(frame.subrange(1, 5)) as i32,
                    maxtime: i32_be(frame.subrange(5, 9)) as i32,
                },
            ),
        )
    } else {
        None
    }
}

/// Decodes one complete 9-byte frame. Decoding an `I` or `Q` frame
/// never fails; every other discriminant gives `None`.
pub fn decode_frame(frame: &[u8]) -> (m: Option<Message>)
    requires
        frame@.len() == 9,
    ensures
        m == spec_decode(frame@),
{
    let tag = frame[0];
    if tag == TAG_INSERT {
        let timestamp = read_i32_be(frame, 1);
        let price = read_i32_be(frame, 5);
        proof {
            lemma_i32_be_bounds(frame@.subrange(1, 5));
            lemma_i32_be_bounds(frame@.subrange(5, 9));
        }
        Some(Message::Insert(InsertMessage { tag, timestamp, price }))
    } else if tag == TAG_QUERY {
        let mintime = read_i32_be(frame, 1);
        let maxtime = read_i32_be(frame, 5);
        proof {
            lemma_i32_be_bounds(frame@.subrange(1, 5));
            lemma_i32_be_bounds(frame@.subrange(5, 9));
        }
        Some(Message::Query(QueryMessage { tag, mintime, maxtime }))
    } else {
        None
    }
}

/// Encodes a response into its fixed 4-byte wire form.
pub fn encode_response(resp: &Response) -> (out: Vec<u8>)
    ensures
        out@.len() == 4,
        i32_be(out@) == resp.average as int,
{
    encode_i32_be(resp.average)
}

} // verus!
