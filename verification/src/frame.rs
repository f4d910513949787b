//! The wire envelope: a zero marker byte, the payload length as a varint,
//! the numeric type tag as a varint, then the payload itself.

use vstd::prelude::*;
use crate::varint::{
    varint, take_varint, trunc32, VarintStep, VarintRead, read_varint, write_varint,
    lemma_take_varint_bounds, lemma_varint_roundtrip,
};

verus! {

/// The header of a frame: marker, length varint, tag varint.
pub open spec fn header_bytes(tag: u32, length: u32) -> Seq<u8> {
    seq![0u8] + varint(length) + varint(tag)
}

/// One whole frame around `payload`.
pub open spec fn frame_bytes(tag: u32, payload: Seq<u8>) -> Seq<u8>
    recommends
        payload.len() <= u32::MAX,
{
    header_bytes(tag, payload.len() as u32) + payload
}

/// Result of parsing a frame header from the front of a byte sequence.
pub enum HeaderStep {
    /// The bytes run out inside the header.
    Incomplete,
    /// The first byte is not the zero marker: a framing violation.
    BadMarker,
    /// A length or tag varint overruns five bytes: a framing violation.
    TooLong,
    /// A complete header: declared payload length, type tag, header size.
    Done { length: u32, tag: u32, consumed: int },
}

/// Parse a frame header from the front of `s`; the payload is not consumed.
pub open spec fn take_header(s: Seq<u8>) -> HeaderStep {
    if s.len() == 0 {
        HeaderStep::Incomplete
    } else if s[0] != 0 {
        HeaderStep::BadMarker
    } else {
        match take_varint(s.skip(1)) {
            VarintStep::Incomplete => HeaderStep::Incomplete,
            VarintStep::TooLong => HeaderStep::TooLong,
            VarintStep::Done { value: lv, consumed: c1 } => match take_varint(s.skip(1 + c1)) {
                VarintStep::Incomplete => HeaderStep::Incomplete,
                VarintStep::TooLong => HeaderStep::TooLong,
                VarintStep::Done { value: tv, consumed: c2 } => HeaderStep::Done {
                    length: trunc32(lv),
                    tag: trunc32(tv),
                    consumed: 1 + c1 + c2,
                },
            },
        }
    }
}

/// A parsed header occupies at least three bytes and no more than the input.
pub proof fn lemma_take_header_bounds(s: Seq<u8>)
    ensures
        take_header(s) matches HeaderStep::Done { consumed, .. } ==> 3 <= consumed <= s.len(),
{
    if s.len() > 0 && s[0] == 0 {
        lemma_take_varint_bounds(s.skip(1));
        match take_varint(s.skip(1)) {
            VarintStep::Done { value: lv, consumed: c1 } => {
                lemma_take_varint_bounds(s.skip(1 + c1));
            },
            _ => {},
        }
    }
}

/// Parsing a frame built around `payload`, whatever follows it, yields the
/// exact tag and declared length, and the bytes after the header start with
/// the exact payload: the framing round-trip.
pub proof fn lemma_frame_roundtrip(tag: u32, payload: Seq<u8>, rest: Seq<u8>)
    requires
        payload.len() <= u32::MAX,
    ensures
        take_header(frame_bytes(tag, payload) + rest) matches HeaderStep::Done {
            length,
            tag: t,
            consumed,
        } && length == payload.len() && t == tag && (frame_bytes(tag, payload) + rest).skip(
            consumed,
        ) == payload + rest,
{
    let len32 = payload.len() as u32;
    let s = frame_bytes(tag, payload) + rest;
    assert(s[0] == 0);
    assert(s.skip(1) =~= varint(len32) + (varint(tag) + (payload + rest)));
    lemma_varint_roundtrip(len32, varint(tag) + (payload + rest));
    let c1 = varint(len32).len() as int;
    assert(s.skip(1 + c1) =~= varint(tag) + (payload + rest));
    lemma_varint_roundtrip(tag, payload + rest);
    let c2 = varint(tag).len() as int;
    assert(trunc32(len32 as nat) == len32);
    assert(trunc32(tag as nat) == tag);
    assert(s.skip(1 + c1 + c2) =~= payload + rest);
}

/// Build one frame around `payload`.
pub fn encode_frame(tag: u32, payload: &Vec<u8>) -> (r: Vec<u8>)
    requires
        payload@.len() <= u32::MAX,
    ensures
        r@ == frame_bytes(tag, payload@),
{
    let mut out: Vec<u8> = Vec::new();
    out.push(0);
    write_varint(&mut out, payload.len() as u32);
    write_varint(&mut out, tag);
    let n = payload.len();
    let ghost head = out@;
    let mut k: usize = 0;
    while k < n
        invariant
            k <= n,
            n == payload@.len(),
            out@ == head + payload@.subrange(0, k as int),
        decreases n - k,
    {
        out.push(payload[k]);
        assert(out@ =~= head + payload@.subrange(0, k as int + 1));
        k = k + 1;
    }
    proof {
        assert(payload@.subrange(0, payload@.len() as int) =~= payload@);
        assert(out@ =~= frame_bytes(tag, payload@));
    }
    out
}

/// Result of reading a frame header from a buffer.
pub enum HeaderRead {
    /// The buffer ends inside the header.
    Incomplete,
    /// The first byte is not the zero marker.
    BadMarker,
    /// A length or tag varint overruns five bytes.
    TooLong,
    /// A complete header: declared payload length, type tag, header size.
    Done { length: u32, tag: u32, consumed: usize },
}

/// Read a frame header from `buf` starting at `start`, exactly as
/// [`take_header`] describes on the corresponding suffix.
pub fn read_header(buf: &Vec<u8>, start: usize) -> (r: HeaderRead)
    requires
        start <= buf@.len(),
    ensures
        match take_header(buf@.skip(start as int)) {
            HeaderStep::Incomplete => r is Incomplete,
            HeaderStep::BadMarker => r is BadMarker,
            HeaderStep::TooLong => r is TooLong,
            HeaderStep::Done { length, tag, consumed } => r matches HeaderRead::Done {
                length: rl,
                tag: rt,
                consumed: rc,
            } && rl == length && rt == tag && rc == consumed,
        },
{
    let ghost s = buf@.skip(start as int);
    let buf_len = buf.len();
    if buf_len - start == 0 {
        return HeaderRead::Incomplete;
    }
    if buf[start] != 0 {
        return HeaderRead::BadMarker;
    }
    proof {
        lemma_take_varint_bounds(s.skip(1));
        assert(s.skip(1) =~= buf@.skip(start as int + 1));
    }
    let (length, c1) = match read_varint(buf, start + 1) {
        VarintRead::Incomplete => {
            return HeaderRead::Incomplete;
        },
        VarintRead::TooLong => {
            return HeaderRead::TooLong;
        },
        VarintRead::Value { value, consumed } => (value, consumed),
    };
    proof {
        lemma_take_varint_bounds(s.skip(1 + c1 as int));
        assert(s.skip(1 + c1 as int) =~= buf@.skip(start as int + 1 + c1 as int));
    }
    let (tag, c2) = match read_varint(buf, start + 1 + c1) {
        VarintRead::Incomplete => {
            return HeaderRead::Incomplete;
        },
        VarintRead::TooLong => {
            return HeaderRead::TooLong;
        },
        VarintRead::Value { value, consumed } => (value, consumed),
    };
    HeaderRead::Done { length, tag, consumed: 1 + c1 + c2 }
}

} // verus!
