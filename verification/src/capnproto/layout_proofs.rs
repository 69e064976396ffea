//! What stands where in a message: the facts that reading relies on.

use crate::api::{WireReq, WireReqKind, WireResp, WireRespKind};
use crate::capnproto::layout::{
    frame, frameable, id_body, is_frame, padding, req_bytes, req_segment, req_unknown_variant,
    req_which, resp_bytes, resp_segment, resp_unknown_variant, root_words, struct_pointer,
    text_body, text_field, text_pointer, text_words, u16_at, u16_le, u32_at, u32_le, zeros,
    req_fits, resp_fits, MAX_TEXT_LEN,
};
use vstd::prelude::*;
use vstd::utf8::encode_utf8;

verus! {

/// A number that is read in the first part of two is read from that part.
pub(crate) proof fn lemma_read_left(a: Seq<u8>, b: Seq<u8>, at: int)
    requires
        0 <= at,
        at + 4 <= a.len(),
    ensures
        u32_at(a + b, at) == u32_at(a, at),
        u16_at(a + b, at) == u16_at(a, at),
{
    assert((a + b)[at] == a[at]);
    assert((a + b)[at + 1] == a[at + 1]);
    assert((a + b)[at + 2] == a[at + 2]);
    assert((a + b)[at + 3] == a[at + 3]);
}

/// A number that is read in the second part of two is read from that part.
pub(crate) proof fn lemma_read_right(a: Seq<u8>, b: Seq<u8>, at: int)
    requires
        0 <= at,
        at + 4 <= b.len(),
    ensures
        u32_at(a + b, a.len() + at) == u32_at(b, at),
        u16_at(a + b, a.len() + at) == u16_at(b, at),
{
    assert((a + b)[a.len() + at] == b[at]);
    assert((a + b)[a.len() + at + 1] == b[at + 1]);
    assert((a + b)[a.len() + at + 2] == b[at + 2]);
    assert((a + b)[a.len() + at + 3] == b[at + 3]);
}

/// What stands where in the first two words of a segment.
pub(crate) proof fn lemma_root_words(id: u32, which: u16, tail: Seq<u8>)
    requires
        tail.len() == 2,
    ensures
        ({
            let r = root_words(id, which, tail);
            &&& r.len() == 16
            &&& r.subrange(0, 8) == struct_pointer(1, 1)
            &&& u32_at(r, 8) == id
            &&& u16_at(r, 12) == which
            &&& r.subrange(14, 16) == tail
        }),
{
    reveal(root_words);
    let r = root_words(id, which, tail);
    assert(r.len() == 16);
    assert(r.subrange(0, 8) =~= struct_pointer(1, 1));
    assert(r[8] == u32_le(id)[0]);
    assert(r[9] == u32_le(id)[1]);
    assert(r[10] == u32_le(id)[2]);
    assert(r[11] == u32_le(id)[3]);
    assert(r[12] == u16_le(which)[0]);
    assert(r[13] == u16_le(which)[1]);
    assert(r.subrange(14, 16) =~= tail);
}

/// What stands where in a body that holds an identity.
pub(crate) proof fn lemma_id_body(id: u32)
    ensures
        id_body(id).len() == 16,
        u32_at(id_body(id), 8) == id,
{
    reveal(id_body);
    let b = id_body(id);
    assert(b[8] == u32_le(id)[0]);
    assert(b[9] == u32_le(id)[1]);
    assert(b[10] == u32_le(id)[2]);
    assert(b[11] == u32_le(id)[3]);
}

/// A text with its 0 byte and its padding fills whole words.
pub(crate) proof fn lemma_padding(len: nat)
    ensures
        (len + padding(len)) % 8 == 0,
        padding(len) < 8,
{
}

/// The bytes of a 32 bit number give the number back.
pub(crate) proof fn lemma_u32_le(v: u32)
    ensures
        u32_le(v).len() == 4,
        u32_at(u32_le(v), 0) == v,
{
}

/// What stands where in the pointer to a text.
pub(crate) proof fn lemma_text_pointer(len: nat)
    requires
        len <= MAX_TEXT_LEN,
    ensures
        text_pointer(len).len() == 8,
        u32_at(text_pointer(len), 4) == (len + 1) * 8 + 2,
{
    let count = ((len + 1) * 8 + 2) as u32;
    lemma_u32_le(count);
    lemma_read_right(u32_le(1), u32_le(count), 0);
}

/// What stands where in a text and the pointer to it.
pub(crate) proof fn lemma_text_field(text: Seq<u8>)
    requires
        text.len() <= MAX_TEXT_LEN,
    ensures
        ({
            let f = text_field(text);
            let n = text.len();
            &&& f.len() == 8 + n + 1 + padding(n + 1)
            &&& u32_at(f, 4) == (n + 1) * 8 + 2
            &&& f.subrange(8, 8 + n as int) == text
        }),
{
    let n = text.len();
    lemma_text_pointer(n);
    lemma_read_left(text_pointer(n), text_words(text), 4);
    assert(text_field(text).subrange(8, 8 + n as int) =~= text);
}

/// What stands where in a body that holds a text.
pub(crate) proof fn lemma_text_body(text: Seq<u8>)
    requires
        text.len() <= MAX_TEXT_LEN,
    ensures
        ({
            let b = text_body(text);
            let n = text.len();
            &&& b.len() == 16 + n + 1 + padding(n + 1)
            &&& b.len() % 8 == 0
            &&& b.len() <= 16 + MAX_TEXT_LEN + 8
            &&& u32_at(b, 12) == (n + 1) * 8 + 2
            &&& b.subrange(16, 16 + n as int) == text
        }),
{
    reveal(text_body);
    let n = text.len();
    let f = text_field(text);
    lemma_padding(n + 1);
    lemma_text_field(text);
    lemma_read_right(struct_pointer(0, 1), f, 4);
    assert(text_body(text).subrange(16, 16 + n as int) =~= f.subrange(8, 8 + n as int));
}

/// What stands where in a segment of two parts, the first of two words.
pub(crate) proof fn lemma_two_parts(r: Seq<u8>, b: Seq<u8>)
    requires
        r.len() == 16,
    ensures
        ({
            let s = r + b;
            &&& s.len() == 16 + b.len()
            &&& s.subrange(0, 8) == r.subrange(0, 8)
            &&& s.subrange(14, 16) == r.subrange(14, 16)
            &&& u32_at(s, 8) == u32_at(r, 8)
            &&& u16_at(s, 12) == u16_at(r, 12)
            &&& s.subrange(16, s.len() as int) == b
            &&& b.len() >= 12 ==> u32_at(s, 24) == u32_at(b, 8)
            &&& b.len() >= 16 ==> u32_at(s, 28) == u32_at(b, 12)
        }),
{
    let s = r + b;
    assert(s.subrange(0, 8) =~= r.subrange(0, 8));
    assert(s.subrange(14, 16) =~= r.subrange(14, 16));
    assert(s.subrange(16, s.len() as int) =~= b);
    lemma_read_left(r, b, 8);
    lemma_read_left(r, b, 12);
    if b.len() >= 12 {
        lemma_read_right(r, b, 8);
    }
    if b.len() >= 16 {
        lemma_read_right(r, b, 12);
    }
}

/// A number that is read behind the first two words of a segment is read
/// from what follows them.
pub(crate) proof fn lemma_tail_reads(s: Seq<u8>, at: int)
    requires
        0 <= at,
        16 + at + 4 <= s.len(),
    ensures
        u32_at(s.subrange(16, s.len() as int), at) == u32_at(s, 16 + at),
{
}

/// A framed segment is its table of eight bytes and then the segment.
pub(crate) proof fn lemma_frame(segment: Seq<u8>)
    ensures
        frame(segment).len() == 8 + segment.len(),
        frame(segment).subrange(8, 8 + segment.len() as int) == segment,
{
    assert(frame(segment).subrange(8, 8 + segment.len() as int) =~= segment);
}

/// What stands where in the segment of a request.
pub(crate) proof fn lemma_req_segment_layout(m: WireReq<Seq<char>>)
    requires
        req_fits(m),
    ensures
        ({
            let s = req_segment(m);
            &&& s.len() >= 32
            &&& frameable(s)
            &&& s.subrange(0, 8) == struct_pointer(1, 1)
            &&& u32_at(s, 8) == m.id
            &&& u16_at(s, 12) == req_which(m.kind)
            &&& match m.kind {
                WireReqKind::CreateSolver { grid } => {
                    let n = encode_utf8(grid).len();
                    &&& u32_at(s, 28) == (n + 1) * 8 + 2
                    &&& s.len() >= 32 + n
                    &&& s.subrange(32, 32 + n as int) == encode_utf8(grid)
                    &&& s.subrange(16, s.len() as int) == text_body(encode_utf8(grid))
                },
                WireReqKind::Solve { id } => u32_at(s, 24) == id,
                WireReqKind::Destroy { id } => u32_at(s, 24) == id,
            }
        }),
{
    let r = root_words(m.id, req_which(m.kind), zeros(2));
    lemma_root_words(m.id, req_which(m.kind), zeros(2));
    match m.kind {
        WireReqKind::CreateSolver { grid } => {
            let b = text_body(encode_utf8(grid));
            let n = encode_utf8(grid).len();
            lemma_text_body(encode_utf8(grid));
            lemma_two_parts(r, b);
            assert((r + b).subrange(32, 32 + n as int) =~= b.subrange(16, 16 + n as int));
        },
        WireReqKind::Solve { id } => {
            lemma_id_body(id);
            lemma_two_parts(r, id_body(id));
        },
        WireReqKind::Destroy { id } => {
            lemma_id_body(id);
            lemma_two_parts(r, id_body(id));
        },
    }
}

/// What stands where in the segment of a response.
pub(crate) proof fn lemma_resp_segment_layout(m: WireResp<Seq<char>>)
    requires
        resp_fits(m),
    ensures
        ({
            let s = resp_segment(m);
            &&& s.len() >= 24
            &&& frameable(s)
            &&& s.subrange(0, 8) == struct_pointer(1, 1)
            &&& u32_at(s, 8) == m.id
            &&& match m.kind {
                WireRespKind::SolverCreated { id } => {
                    &&& u16_at(s, 12) == 0
                    &&& u16_at(s, 14) == 0
                    &&& s.len() >= 32
                    &&& u32_at(s, 24) == id
                },
                WireRespKind::SolverResult { solution } => {
                    let n = encode_utf8(solution).len();
                    &&& u16_at(s, 12) == 0
                    &&& u16_at(s, 14) == 1
                    &&& u32_at(s, 28) == (n + 1) * 8 + 2
                    &&& s.len() >= 32 + n
                    &&& s.subrange(32, 32 + n as int) == encode_utf8(solution)
                    &&& s.subrange(16, s.len() as int) == text_body(encode_utf8(solution))
                },
                WireRespKind::Destroyed => {
                    &&& u16_at(s, 12) == 0
                    &&& u16_at(s, 14) == 2
                },
                WireRespKind::Failed { code } => {
                    &&& u16_at(s, 12) == 1
                    &&& s[14] == code
                },
            }
        }),
{
    match m.kind {
        WireRespKind::SolverCreated { id } => {
            let r = root_words(m.id, 0, u16_le(0));
            lemma_root_words(m.id, 0, u16_le(0));
            lemma_id_body(id);
            lemma_two_parts(r, id_body(id));
            assert((r + id_body(id)).subrange(14, 16)[0] == (r + id_body(id))[14]);
            assert((r + id_body(id)).subrange(14, 16)[1] == (r + id_body(id))[15]);
        },
        WireRespKind::SolverResult { solution } => {
            let r = root_words(m.id, 0, u16_le(1));
            let b = text_body(encode_utf8(solution));
            let n = encode_utf8(solution).len();
            lemma_root_words(m.id, 0, u16_le(1));
            lemma_text_body(encode_utf8(solution));
            lemma_two_parts(r, b);
            assert((r + b).subrange(32, 32 + n as int) =~= b.subrange(16, 16 + n as int));
            assert((r + b).subrange(14, 16)[0] == (r + b)[14]);
            assert((r + b).subrange(14, 16)[1] == (r + b)[15]);
        },
        WireRespKind::Destroyed => {
            let r = root_words(m.id, 0, u16_le(2));
            lemma_root_words(m.id, 0, u16_le(2));
            lemma_two_parts(r, zeros(8));
            assert((r + zeros(8)).subrange(14, 16)[0] == (r + zeros(8))[14]);
            assert((r + zeros(8)).subrange(14, 16)[1] == (r + zeros(8))[15]);
        },
        WireRespKind::Failed { code } => {
            let r = root_words(m.id, 1, seq![code, 0u8]);
            lemma_root_words(m.id, 1, seq![code, 0u8]);
            lemma_two_parts(r, zeros(8));
            assert((r + zeros(8)).subrange(14, 16)[0] == (r + zeros(8))[14]);
        },
    }
}

/// The bytes of a request are a framed segment and nothing else.
pub(crate) proof fn lemma_req_bytes_frame(m: WireReq<Seq<char>>)
    requires
        req_fits(m),
    ensures
        is_frame(req_bytes(m)),
        req_bytes(m).subrange(8, req_bytes(m).len() as int) == req_segment(m),
        req_unknown_variant(req_segment(m)) is None,
{
    lemma_frame(req_segment(m));
    lemma_req_segment_layout(m);
}

/// The bytes of a response are a framed segment and nothing else.
pub(crate) proof fn lemma_resp_bytes_frame(m: WireResp<Seq<char>>)
    requires
        resp_fits(m),
    ensures
        is_frame(resp_bytes(m)),
        resp_bytes(m).subrange(8, resp_bytes(m).len() as int) == resp_segment(m),
        resp_unknown_variant(resp_segment(m)) is None,
{
    lemma_frame(resp_segment(m));
    lemma_resp_segment_layout(m);
}

} // verus!
