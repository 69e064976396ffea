//! Writing and reading the segment of a message.

use crate::api::{WireReq, WireReqKind, WireResp, WireRespKind};
use crate::capnproto::layout::{
    id_body, req_fits, req_segment, req_unknown_variant, req_which, resp_fits, resp_segment,
    resp_unknown_variant, root_words, struct_pointer, text_body, text_field, text_fits, u16_at,
    u16_le, u32_at, u32_le, zeros, MAX_TEXT_LEN,
};
use crate::capnproto::layout_proofs::{
    lemma_req_segment_layout, lemma_resp_segment_layout, lemma_tail_reads, lemma_text_body,
};
use crate::capnproto::DecodeError;
use vstd::prelude::*;
use vstd::utf8::{encode_utf8, encode_utf8_decode_utf8, encode_utf8_valid_utf8, valid_utf8};

verus! {

/// Appends a 16 bit number, low byte first.
fn push_u16(out: &mut Vec<u8>, v: u16)
    ensures
        final(out)@ == old(out)@ + u16_le(v),
{
    out.push((v % 256) as u8);
    out.push((v / 256) as u8);
    assert(out@ =~= old(out)@ + u16_le(v));
}

/// Appends a 32 bit number, low byte first.
fn push_u32(out: &mut Vec<u8>, v: u32)
    ensures
        final(out)@ == old(out)@ + u32_le(v),
{
    out.push((v % 256) as u8);
    out.push((v / 256 % 256) as u8);
    out.push((v / 65536 % 256) as u8);
    out.push((v / 16777216) as u8);
    assert(out@ =~= old(out)@ + u32_le(v));
}

/// Appends `n` bytes of 0.
fn push_zeros(out: &mut Vec<u8>, n: usize)
    ensures
        final(out)@ == old(out)@ + zeros(n as nat),
{
    let mut i: usize = 0;
    while i < n
        invariant
            i <= n,
            out@ == old(out)@ + zeros(i as nat),
        decreases n - i,
    {
        out.push(0u8);
        i = i + 1;
        assert(out@ =~= old(out)@ + zeros(i as nat));
    }
}

/// Appends the given bytes.
fn push_bytes(out: &mut Vec<u8>, bytes: &[u8])
    ensures
        final(out)@ == old(out)@ + bytes@,
{
    let mut i: usize = 0;
    while i < bytes.len()
        invariant
            i <= bytes@.len(),
            out@ == old(out)@ + bytes@.subrange(0, i as int),
        decreases bytes@.len() - i,
    {
        out.push(bytes[i]);
        i = i + 1;
        assert(out@ =~= old(out)@ + bytes@.subrange(0, i as int));
    }
    assert(bytes@.subrange(0, i as int) =~= bytes@);
}

/// Appends a pointer to a struct that follows the pointer directly.
fn push_struct_pointer(out: &mut Vec<u8>, data_words: u16, pointers: u16)
    ensures
        final(out)@ == old(out)@ + struct_pointer(data_words, pointers),
{
    push_zeros(out, 4);
    push_u16(out, data_words);
    push_u16(out, pointers);
    assert(out@ =~= old(out)@ + struct_pointer(data_words, pointers));
}

/// Appends the first two words of a segment.
fn push_root_words(out: &mut Vec<u8>, id: u32, which: u16, tail0: u8, tail1: u8)
    ensures
        final(out)@ == old(out)@ + root_words(id, which, seq![tail0, tail1]),
{
    push_struct_pointer(out, 1, 1);
    push_u32(out, id);
    push_u16(out, which);
    out.push(tail0);
    out.push(tail1);
    reveal(root_words);
    assert(out@ =~= old(out)@ + root_words(id, which, seq![tail0, tail1]));
}

/// Appends a body that holds an identity.
fn push_id_body(out: &mut Vec<u8>, id: u32)
    ensures
        final(out)@ == old(out)@ + id_body(id),
{
    push_struct_pointer(out, 1, 0);
    push_u32(out, id);
    push_zeros(out, 4);
    reveal(id_body);
    assert(out@ =~= old(out)@ + id_body(id));
}

/// Appends a body that holds a text.
fn push_text_body(out: &mut Vec<u8>, text: &str)
    requires
        text_fits(text@),
    ensures
        final(out)@ == old(out)@ + text_body(encode_utf8(text@)),
{
    push_struct_pointer(out, 0, 1);
    let ghost with_pointer = out@;
    let bytes = text.as_bytes();
    let len = bytes.len();
    push_u32(out, 1);
    push_u32(out, ((len + 1) * 8 + 2) as u32);
    push_bytes(out, bytes);
    let pad = (8 - (len + 1) % 8) % 8;
    push_zeros(out, 1 + pad);
    assert(out@ =~= with_pointer + text_field(encode_utf8(text@)));
    reveal(text_body);
    assert(out@ =~= old(out)@ + text_body(encode_utf8(text@)));
}

impl WireReq<String> {
    /// The segment of the request.
    pub(crate) fn to_segment(&self) -> (segment: Vec<u8>)
        requires
            req_fits(self@),
        ensures
            segment@ == req_segment(self@),
    {
        let mut out: Vec<u8> = Vec::new();
        assert(seq![0u8, 0u8] =~= zeros(2));
        match &self.kind {
            WireReqKind::CreateSolver { grid } => {
                push_root_words(&mut out, self.id, 0, 0, 0);
                push_text_body(&mut out, grid.as_str());
            },
            WireReqKind::Solve { id } => {
                push_root_words(&mut out, self.id, 1, 0, 0);
                push_id_body(&mut out, *id);
            },
            WireReqKind::Destroy { id } => {
                push_root_words(&mut out, self.id, 2, 0, 0);
                push_id_body(&mut out, *id);
            },
        }
        assert(out@ =~= req_segment(self@));
        out
    }
}

impl WireResp<String> {
    /// The segment of the response.
    pub(crate) fn to_segment(&self) -> (segment: Vec<u8>)
        requires
            resp_fits(self@),
        ensures
            segment@ == resp_segment(self@),
    {
        let mut out: Vec<u8> = Vec::new();
        match &self.kind {
            WireRespKind::SolverCreated { id } => {
                assert(seq![0u8, 0u8] =~= u16_le(0));
                push_root_words(&mut out, self.id, 0, 0, 0);
                push_id_body(&mut out, *id);
            },
            WireRespKind::SolverResult { solution } => {
                assert(seq![1u8, 0u8] =~= u16_le(1));
                push_root_words(&mut out, self.id, 0, 1, 0);
                push_text_body(&mut out, solution.as_str());
            },
            WireRespKind::Destroyed => {
                assert(seq![2u8, 0u8] =~= u16_le(2));
                push_root_words(&mut out, self.id, 0, 2, 0);
                push_zeros(&mut out, 8);
            },
            WireRespKind::Failed { code } => {
                push_root_words(&mut out, self.id, 1, *code, 0);
                push_zeros(&mut out, 8);
            },
        }
        assert(out@ =~= resp_segment(self@));
        out
    }
}

/// Reads the 16 bit number whose bytes stand at `at`.
fn read_u16(s: &[u8], at: usize) -> (v: u16)
    requires
        at + 2 <= s@.len(),
    ensures
        v == u16_at(s@, at as int),
{
    let low = s[at] as u16;
    let high = s[at + 1] as u16;
    low + 256 * high
}

/// Reads the 32 bit number whose bytes stand at `at`.
fn read_u32(s: &[u8], at: usize) -> (v: u32)
    requires
        at + 4 <= s@.len(),
    ensures
        v == u32_at(s@, at as int),
{
    let b0 = s[at] as u32;
    let b1 = s[at + 1] as u32;
    let b2 = s[at + 2] as u32;
    let b3 = s[at + 3] as u32;
    b0 + 256 * b1 + 65536 * b2 + 16777216 * b3
}

/// Whether two buffers hold the same bytes.
fn bytes_equal(a: &[u8], b: &[u8]) -> (equal: bool)
    ensures
        equal == (a@ == b@),
{
    if a.len() != b.len() {
        return false;
    }
    let mut i: usize = 0;
    while i < a.len()
        invariant
            a@.len() == b@.len(),
            i <= a@.len(),
            a@.subrange(0, i as int) == b@.subrange(0, i as int),
        decreases a@.len() - i,
    {
        if a[i] != b[i] {
            return false;
        }
        i = i + 1;
        assert(a@.subrange(0, i as int) =~= a@.subrange(0, i - 1).push(a@[i - 1]));
        assert(b@.subrange(0, i as int) =~= b@.subrange(0, i - 1).push(b@[i - 1]));
    }
    assert(a@ =~= a@.subrange(0, i as int));
    assert(b@ =~= b@.subrange(0, i as int));
    true
}

/// The bytes of `s` from `from` up to `to`, as a vector of their own.
fn copy_range(s: &[u8], from: usize, to: usize) -> (part: Vec<u8>)
    requires
        from <= to <= s@.len(),
    ensures
        part@ == s@.subrange(from as int, to as int),
{
    let mut part: Vec<u8> = Vec::new();
    let mut i: usize = from;
    while i < to
        invariant
            from <= i <= to <= s@.len(),
            part@ == s@.subrange(from as int, i as int),
        decreases to - i,
    {
        part.push(s[i]);
        i = i + 1;
        assert(part@ =~= s@.subrange(from as int, i as int));
    }
    part
}

/// Calls `String::from_utf8`: the string whose UTF-8 bytes are the given
/// ones, or `None` where the bytes are no UTF-8.
#[verifier::external_body]
fn string_from_utf8(bytes: Vec<u8>) -> (text: Option<String>)
    ensures
        match text {
            Some(t) => encode_utf8(t@) == bytes@,
            None => !valid_utf8(bytes@),
        },
{
    String::from_utf8(bytes).ok()
}

/// Two texts with the same UTF-8 bytes are the same text.
proof fn lemma_utf8_injective(a: Seq<char>, b: Seq<char>)
    requires
        encode_utf8(a) == encode_utf8(b),
    ensures
        a == b,
{
    encode_utf8_decode_utf8(a);
    encode_utf8_decode_utf8(b);
}

/// Whether a text field at word 3 of a segment spells the text `text`: the
/// pointer at word 3 gives the length of the text and of its 0 byte, and the
/// bytes behind the pointer are those of the text.
spec fn text_spelled(s: Seq<u8>, text: Seq<char>) -> bool {
    let count = u32_at(s, 28) / 8;
    &&& count >= 1
    &&& 32 + (count - 1) <= s.len()
    &&& encode_utf8(text) == s.subrange(32, 32 + (count - 1))
}

/// Whether the fields of a segment spell the body `kind` of a request.
spec fn req_kind_spelled(s: Seq<u8>, kind: WireReqKind<Seq<char>>) -> bool {
    &&& s.len() >= 32
    &&& req_which(kind) == u16_at(s, 12)
    &&& match kind {
        WireReqKind::CreateSolver { grid } => text_spelled(s, grid),
        WireReqKind::Solve { id } => id == u32_at(s, 24),
        WireReqKind::Destroy { id } => id == u32_at(s, 24),
    }
}

/// Whether the fields of a segment spell the body `kind` of a response.
spec fn resp_kind_spelled(s: Seq<u8>, kind: WireRespKind<Seq<char>>) -> bool {
    &&& s.len() >= 24
    &&& match kind {
        WireRespKind::SolverCreated { id } => {
            &&& u16_at(s, 12) == 0
            &&& u16_at(s, 14) == 0
            &&& s.len() >= 32
            &&& id == u32_at(s, 24)
        },
        WireRespKind::SolverResult { solution } => {
            &&& u16_at(s, 12) == 0
            &&& u16_at(s, 14) == 1
            &&& s.len() >= 32
            &&& text_spelled(s, solution)
        },
        WireRespKind::Destroyed => {
            &&& u16_at(s, 12) == 0
            &&& u16_at(s, 14) == 2
        },
        WireRespKind::Failed { code } => {
            &&& u16_at(s, 12) == 1
            &&& code == s[14]
        },
    }
}

/// A segment is the segment of no request but, at most, of the one that its
/// fields spell.
proof fn lemma_req_segment_only(s: Seq<u8>, c: WireReq<Seq<char>>, m: WireReq<Seq<char>>)
    requires
        req_fits(m),
        s == req_segment(m),
        c.id == u32_at(s, 8),
        req_kind_spelled(s, c.kind),
    ensures
        c == m,
{
    lemma_req_segment_layout(m);
    match m.kind {
        WireReqKind::CreateSolver { grid } => {
            let n = encode_utf8(grid).len();
            assert(u32_at(s, 28) / 8 - 1 == n);
            lemma_utf8_injective(c.kind->grid, grid);
        },
        _ => {},
    }
}

/// A segment is the segment of no response but, at most, of the one that
/// its fields spell.
proof fn lemma_resp_segment_only(s: Seq<u8>, c: WireResp<Seq<char>>, m: WireResp<Seq<char>>)
    requires
        resp_fits(m),
        s == resp_segment(m),
        c.id == u32_at(s, 8),
        resp_kind_spelled(s, c.kind),
    ensures
        c == m,
{
    lemma_resp_segment_layout(m);
    match m.kind {
        WireRespKind::SolverResult { solution } => {
            let n = encode_utf8(solution).len();
            assert(u32_at(s, 28) / 8 - 1 == n);
            lemma_utf8_injective(c.kind->solution, solution);
        },
        _ => {},
    }
}

/// No two requests have the same segment.
pub(crate) proof fn lemma_req_segment_injective(a: WireReq<Seq<char>>, b: WireReq<Seq<char>>)
    requires
        req_fits(a),
        req_fits(b),
        req_segment(a) == req_segment(b),
    ensures
        a == b,
{
    lemma_req_segment_layout(a);
    lemma_req_segment_only(req_segment(a), a, b);
}

/// No two responses have the same segment.
pub(crate) proof fn lemma_resp_segment_injective(a: WireResp<Seq<char>>, b: WireResp<Seq<char>>)
    requires
        resp_fits(a),
        resp_fits(b),
        resp_segment(a) == resp_segment(b),
    ensures
        a == b,
{
    lemma_resp_segment_layout(a);
    lemma_resp_segment_only(resp_segment(a), a, b);
}

/// Reads the text whose pointer stands at word 3 of a segment.
fn parse_text(segment: &[u8]) -> (parsed: Option<String>)
    requires
        segment@.len() >= 32,
    ensures
        match parsed {
            Some(text) => text_fits(text@) && text_spelled(segment@, text@),
            None => forall|bytes: Seq<u8>|
                #![trigger text_body(bytes)]
                bytes.len() <= MAX_TEXT_LEN && valid_utf8(bytes) ==> segment@.subrange(
                    16,
                    segment@.len() as int,
                ) != text_body(bytes),
        },
{
    let count = read_u32(segment, 28) / 8;
    if count == 0 || count as usize - 1 > MAX_TEXT_LEN || 32 + (count as usize - 1)
        > segment.len() {
        assert forall|bytes: Seq<u8>|
            #![trigger text_body(bytes)]
            bytes.len() <= MAX_TEXT_LEN && valid_utf8(bytes) implies segment@.subrange(
            16,
            segment@.len() as int,
        ) != text_body(bytes) by {
            lemma_text_body(bytes);
            lemma_tail_reads(segment@, 12);
        }
        return None;
    }
    let text = copy_range(segment, 32, 32 + (count as usize - 1));
    let parsed = string_from_utf8(text);
    if parsed.is_none() {
        assert forall|bytes: Seq<u8>|
            #![trigger text_body(bytes)]
            bytes.len() <= MAX_TEXT_LEN && valid_utf8(bytes) implies segment@.subrange(
            16,
            segment@.len() as int,
        ) != text_body(bytes) by {
            lemma_text_body(bytes);
            lemma_tail_reads(segment@, 12);
            if segment@.subrange(16, segment@.len() as int) == text_body(bytes) {
                assert(segment@.subrange(32, 32 + bytes.len() as int) =~= text_body(bytes).subrange(
                    16,
                    16 + bytes.len() as int,
                ));
            }
        }
    }
    parsed
}

/// Reads the segment of a request. Only the encoding of a request is one.
pub(crate) fn decode_req_segment(segment: &[u8]) -> (decoded: Result<WireReq<String>, DecodeError>)
    ensures
        match decoded {
            Ok(m) => req_fits(m@) && segment@ == req_segment(m@),
            Err(DecodeError::UnknownVariant(which)) => req_unknown_variant(segment@) == Some(which),
            Err(DecodeError::Malformed) => {
                &&& req_unknown_variant(segment@) is None
                &&& forall|m: WireReq<Seq<char>>|
                    req_fits(m) ==> segment@ != #[trigger] req_segment(m)
            },
        },
{
    let root: [u8; 8] = [0, 0, 0, 0, 1, 0, 1, 0];
    assert(root@ =~= struct_pointer(1, 1));
    if segment.len() < 16 {
        assert forall|m: WireReq<Seq<char>>| req_fits(m) implies segment@ != #[trigger] req_segment(
            m,
        ) by {
            lemma_req_segment_layout(m);
        }
        return Err(DecodeError::Malformed);
    }
    let head = copy_range(segment, 0, 8);
    if !bytes_equal(head.as_slice(), root.as_slice()) {
        assert forall|m: WireReq<Seq<char>>| req_fits(m) implies segment@ != #[trigger] req_segment(
            m,
        ) by {
            lemma_req_segment_layout(m);
        }
        return Err(DecodeError::Malformed);
    }
    let which = read_u16(segment, 12);
    if which > 2 {
        return Err(DecodeError::UnknownVariant(which));
    }
    if segment.len() < 32 {
        assert forall|m: WireReq<Seq<char>>| req_fits(m) implies segment@ != #[trigger] req_segment(
            m,
        ) by {
            lemma_req_segment_layout(m);
        }
        return Err(DecodeError::Malformed);
    }
    let id = read_u32(segment, 8);
    let kind = if which == 0 {
        match parse_text(segment) {
            Some(grid) => WireReqKind::CreateSolver { grid },
            None => {
                assert forall|m: WireReq<Seq<char>>| req_fits(m) implies segment@
                    != #[trigger] req_segment(m) by {
                    lemma_req_segment_layout(m);
                    if segment@ == req_segment(m) {
                        encode_utf8_valid_utf8(m.kind->grid);
                    }
                }
                return Err(DecodeError::Malformed);
            },
        }
    } else if which == 1 {
        WireReqKind::Solve { id: read_u32(segment, 24) }
    } else {
        WireReqKind::Destroy { id: read_u32(segment, 24) }
    };
    let candidate = WireReq { id, kind };
    let encoded = candidate.to_segment();
    if bytes_equal(encoded.as_slice(), segment) {
        Ok(candidate)
    } else {
        assert forall|m: WireReq<Seq<char>>| req_fits(m) implies segment@ != #[trigger] req_segment(
            m,
        ) by {
            if segment@ == req_segment(m) {
                lemma_req_segment_only(segment@, candidate@, m);
            }
        }
        Err(DecodeError::Malformed)
    }
}

/// Reads the segment of a response. Only the encoding of a response is one.
pub(crate) fn decode_resp_segment(segment: &[u8]) -> (decoded: Result<WireResp<String>, DecodeError>)
    ensures
        match decoded {
            Ok(m) => resp_fits(m@) && segment@ == resp_segment(m@),
            Err(DecodeError::UnknownVariant(which)) => resp_unknown_variant(segment@) == Some(
                which,
            ),
            Err(DecodeError::Malformed) => {
                &&& resp_unknown_variant(segment@) is None
                &&& forall|m: WireResp<Seq<char>>|
                    resp_fits(m) ==> segment@ != #[trigger] resp_segment(m)
            },
        },
{
    let root: [u8; 8] = [0, 0, 0, 0, 1, 0, 1, 0];
    assert(root@ =~= struct_pointer(1, 1));
    if segment.len() < 16 {
        assert forall|m: WireResp<Seq<char>>| resp_fits(m) implies segment@
            != #[trigger] resp_segment(m) by {
            lemma_resp_segment_layout(m);
        }
        return Err(DecodeError::Malformed);
    }
    let head = copy_range(segment, 0, 8);
    if !bytes_equal(head.as_slice(), root.as_slice()) {
        assert forall|m: WireResp<Seq<char>>| resp_fits(m) implies segment@
            != #[trigger] resp_segment(m) by {
            lemma_resp_segment_layout(m);
        }
        return Err(DecodeError::Malformed);
    }
    let which = read_u16(segment, 12);
    if which > 1 {
        return Err(DecodeError::UnknownVariant(which));
    }
    let answer = read_u16(segment, 14);
    if which == 0 && answer > 2 {
        return Err(DecodeError::UnknownVariant(answer));
    }
    let with_body = which == 0 && answer < 2;
    if segment.len() < 24 || (with_body && segment.len() < 32) {
        assert forall|m: WireResp<Seq<char>>| resp_fits(m) implies segment@
            != #[trigger] resp_segment(m) by {
            lemma_resp_segment_layout(m);
        }
        return Err(DecodeError::Malformed);
    }
    let id = read_u32(segment, 8);
    let kind = if which == 1 {
        WireRespKind::Failed { code: segment[14] }
    } else if answer == 0 {
        WireRespKind::SolverCreated { id: read_u32(segment, 24) }
    } else if answer == 1 {
        match parse_text(segment) {
            Some(solution) => WireRespKind::SolverResult { solution },
            None => {
                assert forall|m: WireResp<Seq<char>>| resp_fits(m) implies segment@
                    != #[trigger] resp_segment(m) by {
                    lemma_resp_segment_layout(m);
                    if segment@ == resp_segment(m) {
                        encode_utf8_valid_utf8(m.kind->solution);
                    }
                }
                return Err(DecodeError::Malformed);
            },
        }
    } else {
        WireRespKind::Destroyed
    };
    let candidate = WireResp { id, kind };
    let encoded = candidate.to_segment();
    if bytes_equal(encoded.as_slice(), segment) {
        Ok(candidate)
    } else {
        assert forall|m: WireResp<Seq<char>>| resp_fits(m) implies segment@
            != #[trigger] resp_segment(m) by {
            if segment@ == resp_segment(m) {
                lemma_resp_segment_only(segment@, candidate@, m);
            }
        }
        Err(DecodeError::Malformed)
    }
}

} // verus!
