//! The layout of a message, byte by byte.

use crate::api::{WireReq, WireReqKind, WireResp, WireRespKind};
use vstd::prelude::*;
use vstd::utf8::encode_utf8;

verus! {

/// The longest text, in bytes of UTF-8, that a message can carry: with it
/// the segment has as many words as a reader walks through at most.
pub const MAX_TEXT_LEN: usize = 67_108_831;

/// The number of words of a segment that a reader accepts at most.
pub const MAX_SEGMENT_WORDS: usize = 8_388_608;

/// The two bytes of a 16 bit number, low byte first.
pub open spec fn u16_le(v: u16) -> Seq<u8> {
    seq![(v % 256) as u8, (v / 256) as u8]
}

/// The four bytes of a 32 bit number, low byte first.
pub open spec fn u32_le(v: u32) -> Seq<u8> {
    seq![
        (v % 256) as u8,
        (v / 256 % 256) as u8,
        (v / 65536 % 256) as u8,
        (v / 16777216) as u8,
    ]
}

/// The 16 bit number whose bytes stand at `at`, low byte first.
pub open spec fn u16_at(s: Seq<u8>, at: int) -> u16 {
    (s[at] + 256 * s[at + 1]) as u16
}

/// The 32 bit number whose bytes stand at `at`, low byte first.
pub open spec fn u32_at(s: Seq<u8>, at: int) -> u32 {
    (s[at] + 256 * s[at + 1] + 65536 * s[at + 2] + 16777216 * s[at + 3]) as u32
}

/// `n` bytes of 0.
pub open spec fn zeros(n: nat) -> Seq<u8> {
    Seq::new(n, |i: int| 0u8)
}

/// A pointer to a struct that follows the pointer directly.
pub open spec fn struct_pointer(data_words: u16, pointers: u16) -> Seq<u8> {
    zeros(4) + u16_le(data_words) + u16_le(pointers)
}

/// A pointer to a text of `len` bytes that follows the pointer directly:
/// a list of bytes, one more than the text has, for the 0 byte at its end.
pub open spec fn text_pointer(len: nat) -> Seq<u8> {
    u32_le(1) + u32_le(((len + 1) * 8 + 2) as u32)
}

/// The number of bytes that bring `len` bytes up to a full word.
pub open spec fn padding(len: nat) -> nat {
    ((8 - len % 8) % 8) as nat
}

/// A text in the segment: its bytes, the 0 byte, and 0 bytes up to a full
/// word.
pub open spec fn text_words(text: Seq<u8>) -> Seq<u8> {
    text + zeros(1 + padding(text.len() + 1))
}

/// A text, given by its bytes, and the pointer to it.
pub open spec fn text_field(text: Seq<u8>) -> Seq<u8> {
    text_pointer(text.len()) + text_words(text)
}

/// Whether a text is short enough for a message.
pub open spec fn text_fits(text: Seq<char>) -> bool {
    encode_utf8(text).len() <= MAX_TEXT_LEN
}

/// Whether a request is small enough for a message.
pub open spec fn req_fits(m: WireReq<Seq<char>>) -> bool {
    match m.kind {
        WireReqKind::CreateSolver { grid } => text_fits(grid),
        _ => true,
    }
}

/// Whether a response is small enough for a message.
pub open spec fn resp_fits(m: WireResp<Seq<char>>) -> bool {
    match m.kind {
        WireRespKind::SolverResult { solution } => text_fits(solution),
        _ => true,
    }
}

/// The number that tells the bodies of a request apart.
pub open spec fn req_which(kind: WireReqKind<Seq<char>>) -> u16 {
    match kind {
        WireReqKind::CreateSolver { .. } => 0,
        WireReqKind::Solve { .. } => 1,
        WireReqKind::Destroy { .. } => 2,
    }
}

/// The first two words of a segment: the pointer to the root struct and its
/// data word, which holds the identity, the number that tells the bodies
/// apart, and two bytes more.
#[verifier::opaque]
pub open spec fn root_words(id: u32, which: u16, tail: Seq<u8>) -> Seq<u8> {
    struct_pointer(1, 1) + u32_le(id) + u16_le(which) + tail
}

/// A body that holds an identity: the pointer to it and its data word.
#[verifier::opaque]
pub open spec fn id_body(id: u32) -> Seq<u8> {
    struct_pointer(1, 0) + u32_le(id) + zeros(4)
}

/// A body that holds a text, given by its bytes: the pointer to the body,
/// and the text behind the pointer to the text.
#[verifier::opaque]
pub open spec fn text_body(text: Seq<u8>) -> Seq<u8> {
    struct_pointer(0, 1) + text_field(text)
}

/// The segment of a request.
pub open spec fn req_segment(m: WireReq<Seq<char>>) -> Seq<u8> {
    root_words(m.id, req_which(m.kind), zeros(2)) + (match m.kind {
        WireReqKind::CreateSolver { grid } => text_body(encode_utf8(grid)),
        WireReqKind::Solve { id } => id_body(id),
        WireReqKind::Destroy { id } => id_body(id),
    })
}

/// The segment of a response.
pub open spec fn resp_segment(m: WireResp<Seq<char>>) -> Seq<u8> {
    match m.kind {
        WireRespKind::SolverCreated { id } => root_words(m.id, 0, u16_le(0)) + id_body(id),
        WireRespKind::SolverResult { solution } => root_words(m.id, 0, u16_le(1)) + text_body(
            encode_utf8(solution),
        ),
        WireRespKind::Destroyed => root_words(m.id, 0, u16_le(2)) + zeros(8),
        WireRespKind::Failed { code } => root_words(m.id, 1, seq![code, 0u8]) + zeros(8),
    }
}

/// A segment behind its segment table.
pub open spec fn frame(segment: Seq<u8>) -> Seq<u8> {
    u32_le(0) + u32_le((segment.len() / 8) as u32) + segment
}

/// Whether a segment is made of whole words, and of no more than a reader
/// accepts.
pub open spec fn frameable(segment: Seq<u8>) -> bool {
    segment.len() % 8 == 0 && segment.len() / 8 <= MAX_SEGMENT_WORDS
}

/// Whether a buffer is one framed segment and nothing else.
pub open spec fn is_frame(bytes: Seq<u8>) -> bool {
    &&& bytes.len() >= 8
    &&& frameable(bytes.subrange(8, bytes.len() as int))
    &&& bytes == frame(bytes.subrange(8, bytes.len() as int))
}

/// The bytes of a request on the wire.
pub open spec fn req_bytes(m: WireReq<Seq<char>>) -> Seq<u8> {
    frame(req_segment(m))
}

/// The bytes of a response on the wire.
pub open spec fn resp_bytes(m: WireResp<Seq<char>>) -> Seq<u8> {
    frame(resp_segment(m))
}

/// The number of a body of a request that this protocol does not know, where
/// a segment has the root of a request and such a number.
pub open spec fn req_unknown_variant(segment: Seq<u8>) -> Option<u16> {
    if segment.len() >= 16 && segment.subrange(0, 8) == struct_pointer(1, 1) && u16_at(
        segment,
        12,
    ) > 2 {
        Some(u16_at(segment, 12))
    } else {
        None
    }
}

/// The number of a body of a response that this protocol does not know,
/// where a segment has the root of a response and such a number: the number
/// that tells answer from error if it is neither, else the number that tells
/// the answers apart.
pub open spec fn resp_unknown_variant(segment: Seq<u8>) -> Option<u16> {
    if segment.len() >= 16 && segment.subrange(0, 8) == struct_pointer(1, 1) {
        if u16_at(segment, 12) > 1 {
            Some(u16_at(segment, 12))
        } else if u16_at(segment, 12) == 0 && u16_at(segment, 14) > 2 {
            Some(u16_at(segment, 14))
        } else {
            None
        }
    } else {
        None
    }
}

} // verus!
