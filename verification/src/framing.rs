//! Length-prefixed framing: a four-byte big-endian length, then the payload.

use vstd::prelude::*;

verus! {

/// Number of bytes in the length prefix of a frame.
pub const HEADER_LEN: usize = 4;

/// The number that four bytes denote when read most significant byte first.
pub open spec fn be_value(b0: u8, b1: u8, b2: u8, b3: u8) -> int {
    b0 as int * 16777216 + b1 as int * 65536 + b2 as int * 256 + b3 as int
}

/// The four-byte big-endian encoding of `len`.
pub open spec fn header_of(len: u32) -> Seq<u8> {
    seq![
        (len as int / 16777216) as u8,
        (len as int / 65536 % 256) as u8,
        (len as int / 256 % 256) as u8,
        (len as int % 256) as u8,
    ]
}

/// Encodes a payload length as the four-byte prefix of a frame.
pub fn encode_header(len: u32) -> (header: Vec<u8>)
    ensures
        header@ == header_of(len),
        header@.len() == 4,
        be_value(header@[0], header@[1], header@[2], header@[3]) == len,
{
    let b0: u8 = (len / 16777216) as u8;
    let b1: u8 = (len / 65536 % 256) as u8;
    let b2: u8 = (len / 256 % 256) as u8;
    let b3: u8 = (len % 256) as u8;
    let mut header: Vec<u8> = Vec::new();
    header.push(b0);
    header.push(b1);
    header.push(b2);
    header.push(b3);
    header
}

/// Why a payload cannot be framed.
#[derive(Clone, Copy, PartialEq, Eq, Debug)]
pub enum FrameError {
    /// The payload's length does not fit the four-byte prefix.
    PayloadTooLong,
}

/// A payload with its length prefix in front.
pub open spec fn framed(payload: Seq<u8>) -> Seq<u8> {
    header_of(payload.len() as u32) + payload
}

/// The length that the first four bytes of `buf` announce.
pub open spec fn announced_len(buf: Seq<u8>) -> int {
    be_value(buf[0], buf[1], buf[2], buf[3])
}

/// Whether `buf` starts with a whole frame.
pub open spec fn holds_frame(buf: Seq<u8>) -> bool {
    buf.len() >= 4 && buf.len() - 4 >= announced_len(buf)
}

/// The payload of the frame that `buf` starts with.
pub open spec fn first_payload(buf: Seq<u8>) -> Seq<u8> {
    buf.subrange(4, 4 + announced_len(buf))
}

/// The length prefix says what it was made from.
pub proof fn lemma_header_round_trip(len: u32)
    ensures
        header_of(len).len() == 4,
        announced_len(header_of(len)) == len,
{
}

/// What is framed comes out again: a buffer that starts with the frame of
/// `payload` holds a frame, and that frame's payload is `payload`, whatever
/// follows it in the buffer.
pub proof fn law_frame_round_trip(payload: Seq<u8>, rest: Seq<u8>)
    requires
        payload.len() <= u32::MAX,
    ensures
        holds_frame(framed(payload) + rest),
        announced_len(framed(payload) + rest) == payload.len(),
        first_payload(framed(payload) + rest) == payload,
        (framed(payload) + rest).skip(4 + payload.len() as int) == rest,
{
    let buf = framed(payload) + rest;
    lemma_header_round_trip(payload.len() as u32);
    assert(buf[0] == header_of(payload.len() as u32)[0]);
    assert(buf[1] == header_of(payload.len() as u32)[1]);
    assert(buf[2] == header_of(payload.len() as u32)[2]);
    assert(buf[3] == header_of(payload.len() as u32)[3]);
    assert(first_payload(buf) =~= payload);
    assert(buf.skip(4 + payload.len() as int) =~= rest);
}

/// Frames a payload: its length as four big-endian bytes, then the payload
/// itself. Fails only when the length does not fit in four bytes.
pub fn frame(payload: &[u8]) -> (out: Result<Vec<u8>, FrameError>)
    ensures
        (match out {
            Ok(bytes) => payload@.len() <= u32::MAX && bytes@ == framed(payload@),
            Err(FrameError::PayloadTooLong) => payload@.len() > u32::MAX,
        }),
{
    let n = payload.len();
    if n > 0xffff_ffff {
        return Err(FrameError::PayloadTooLong);
    }
    let mut bytes = encode_header(n as u32);
    let mut i: usize = 0;
    while i < n
        invariant
            i <= n,
            n == payload@.len(),
            n <= u32::MAX,
            bytes@ == header_of(n as u32) + payload@.take(i as int),
        decreases n - i,
    {
        bytes.push(payload[i]);
        assert(payload@.take(i + 1) =~= payload@.take(i as int).push(payload@[i as int]));
        assert(bytes@ =~= header_of(n as u32) + payload@.take(i + 1));
        i += 1;
    }
    assert(payload@.take(n as int) =~= payload@);
    Ok(bytes)
}

/// Reads the length that a frame's prefix announces; `None` if fewer than four bytes are there.
pub fn decode_header(buf: &[u8]) -> (len: Option<u32>)
    ensures
        (match len {
            Some(l) => buf@.len() >= 4 && l == announced_len(buf@),
            None => buf@.len() < 4,
        }),
{
    if buf.len() < 4 {
        return None;
    }
    let b0: u32 = buf[0] as u32;
    let b1: u32 = buf[1] as u32;
    let b2: u32 = buf[2] as u32;
    let b3: u32 = buf[3] as u32;
    Some(b0 * 16777216 + b1 * 65536 + b2 * 256 + b3)
}

/// Takes the first frame off the front of `buf`. Returns its payload and the
/// number of bytes it occupied, or `None` while the frame is not all there.
pub fn split_frame(buf: &[u8]) -> (first: Option<(Vec<u8>, usize)>)
    ensures
        (match first {
            Some((payload, used)) => {
                &&& holds_frame(buf@)
                &&& payload@ == first_payload(buf@)
                &&& used == 4 + announced_len(buf@)
            },
            None => !holds_frame(buf@),
        }),
{
    let len = match decode_header(buf) {
        Some(l) => l as usize,
        None => {
            return None;
        },
    };
    let total = buf.len();
    if total - 4 < len {
        return None;
    }
    let mut payload: Vec<u8> = Vec::new();
    let mut i: usize = 0;
    while i < len
        invariant
            i <= len,
            len == announced_len(buf@),
            total == buf@.len(),
            total >= 4,
            total - 4 >= len,
            payload@ == buf@.subrange(4, 4 + i),
        decreases len - i,
    {
        payload.push(buf[4 + i]);
        assert(buf@.subrange(4, 4 + i + 1) =~= buf@.subrange(4, 4 + i).push(buf@[4 + i]));
        i += 1;
    }
    Some((payload, 4 + len))
}

} // verus!
