//! The binary form of the wire protocol.
//!
//! A message is one Cap'n Proto segment behind the standard stream framing:
//! eight bytes of segment table (a segment count less one, which is 0, and
//! the length of the segment in words of eight bytes, both 32 bits, little
//! endian), then the segment.
//!
//! The segment of a request:
//!
//! ```text
//! word 0   pointer to the root struct: offset 0, 1 data word, 1 pointer
//! word 1   id: u32 | which: u16 | 0 0
//! word 2   pointer to the body, which follows it
//!            which = 0, create: offset 0, 0 data words, 1 pointer
//!            which = 1, solve, or 2, destroy: offset 0, 1 data word, 0 pointers
//! word 3   create: pointer to the grid, a list of bytes that follows it
//!          solve, destroy: id: u32 | 0 0 0 0
//! word 4.. create: the grid as UTF-8, a 0 byte, 0 bytes up to a full word
//! ```
//!
//! The segment of a response:
//!
//! ```text
//! word 0   pointer to the root struct: offset 0, 1 data word, 1 pointer
//! word 1   id: u32 | which: u16 | ok: which of the answers: u16
//!                               | error: code: u8, 0
//!          which = 0, ok; 1, error
//! word 2   pointer to the body, which follows it
//!            answer 0, created: offset 0, 1 data word, 0 pointers
//!            answer 1, solved: offset 0, 0 data words, 1 pointer
//!            answer 2, destroyed, and error: the null pointer
//! word 3   created: id: u32 | 0 0 0 0
//!          solved: pointer to the solution, a list of bytes that follows it
//! word 4.. solved: the solution as UTF-8, a 0 byte, 0 bytes up to a full word
//! ```
//!
//! Only this layout is read: a buffer is a message if and only if it is the
//! encoding of one.

use crate::api::{
    req_of_wire, spec_error_code, wire_of_resp, WireReq, WireReqKind, WireResp, WireRespKind,
};
use crate::capnproto::framing::{unframe, write_segment};
use crate::capnproto::layout::{
    is_frame, req_bytes, req_fits, req_segment, req_unknown_variant, resp_bytes, resp_fits,
    resp_segment, resp_unknown_variant, text_fits,
};
use crate::capnproto::layout_proofs::{
    lemma_frame, lemma_req_bytes_frame, lemma_req_segment_layout, lemma_resp_bytes_frame,
    lemma_resp_segment_layout,
};
use crate::capnproto::segment::{
    decode_req_segment, decode_resp_segment, lemma_req_segment_injective,
    lemma_resp_segment_injective,
};
use crate::executor::{Req, Resp, RespKind, RespKindView, RespView};
use vstd::prelude::*;

mod framing;
pub mod layout;
mod layout_proofs;
mod segment;

pub use crate::capnproto::layout::{MAX_SEGMENT_WORDS, MAX_TEXT_LEN};

verus! {

/// Why a buffer is no message.
#[derive(Clone, Copy, Debug, PartialEq, Eq, Structural)]
pub enum DecodeError {
    /// The buffer is not the encoding of any message.
    Malformed,
    /// The buffer is framed and has the root of a message, but its body is
    /// none of those that this protocol knows. The number is the one that
    /// should tell the body.
    UnknownVariant(u16),
}

impl DecodeError {
    /// The description that belongs to each kind of failure.
    pub open spec fn spec_description(self) -> Seq<char> {
        match self {
            DecodeError::Malformed => "buffer is not the encoding of a message"@,
            DecodeError::UnknownVariant(..) => "unsupported variant. Is schema up to date?"@,
        }
    }

    /// A short, fixed description of the failure.
    pub fn description(&self) -> (text: &'static str)
        ensures
            text@ == self.spec_description(),
    {
        match self {
            DecodeError::Malformed => "buffer is not the encoding of a message",
            DecodeError::UnknownVariant(..) => "unsupported variant. Is schema up to date?",
        }
    }
}

/// Whether a text is short enough for a message.
pub fn fits_message(text: &str) -> (fits: bool)
    ensures
        fits == text_fits(text@),
{
    text.as_bytes().len() <= MAX_TEXT_LEN
}

/// The request that a buffer is the encoding of, or why it is none.
pub open spec fn decode_req(bytes: Seq<u8>) -> Result<WireReq<Seq<char>>, DecodeError> {
    if exists|m: WireReq<Seq<char>>| req_fits(m) && bytes == #[trigger] req_bytes(m) {
        Ok(choose|m: WireReq<Seq<char>>| req_fits(m) && bytes == #[trigger] req_bytes(m))
    } else if is_frame(bytes) && req_unknown_variant(bytes.subrange(8, bytes.len() as int))
        is Some {
        Err(DecodeError::UnknownVariant(
            req_unknown_variant(bytes.subrange(8, bytes.len() as int))->Some_0,
        ))
    } else {
        Err(DecodeError::Malformed)
    }
}

/// The response that a buffer is the encoding of, or why it is none.
pub open spec fn decode_resp(bytes: Seq<u8>) -> Result<WireResp<Seq<char>>, DecodeError> {
    if exists|m: WireResp<Seq<char>>| resp_fits(m) && bytes == #[trigger] resp_bytes(m) {
        Ok(choose|m: WireResp<Seq<char>>| resp_fits(m) && bytes == #[trigger] resp_bytes(m))
    } else if is_frame(bytes) && resp_unknown_variant(bytes.subrange(8, bytes.len() as int))
        is Some {
        Err(DecodeError::UnknownVariant(
            resp_unknown_variant(bytes.subrange(8, bytes.len() as int))->Some_0,
        ))
    } else {
        Err(DecodeError::Malformed)
    }
}

/// What reading a request gave, with the request taken by its view.
pub open spec fn req_outcome(decoded: Result<WireReq<String>, DecodeError>) -> Result<
    WireReq<Seq<char>>,
    DecodeError,
> {
    match decoded {
        Ok(m) => Ok(m@),
        Err(e) => Err(e),
    }
}

/// What reading a response gave, with the response taken by its view.
pub open spec fn resp_outcome(decoded: Result<WireResp<String>, DecodeError>) -> Result<
    WireResp<Seq<char>>,
    DecodeError,
> {
    match decoded {
        Ok(m) => Ok(m@),
        Err(e) => Err(e),
    }
}

/// No two requests have the same bytes.
pub proof fn lemma_req_bytes_injective(a: WireReq<Seq<char>>, b: WireReq<Seq<char>>)
    requires
        req_fits(a),
        req_fits(b),
        req_bytes(a) == req_bytes(b),
    ensures
        a == b,
{
    lemma_frame(req_segment(a));
    lemma_frame(req_segment(b));
    lemma_req_segment_injective(a, b);
}

/// No two responses have the same bytes.
pub proof fn lemma_resp_bytes_injective(a: WireResp<Seq<char>>, b: WireResp<Seq<char>>)
    requires
        resp_fits(a),
        resp_fits(b),
        resp_bytes(a) == resp_bytes(b),
    ensures
        a == b,
{
    lemma_frame(resp_segment(a));
    lemma_frame(resp_segment(b));
    lemma_resp_segment_injective(a, b);
}

/// Reading gives back what was written: the bytes of a request decode to
/// that request.
pub proof fn lemma_req_round_trip(m: WireReq<Seq<char>>)
    requires
        req_fits(m),
    ensures
        decode_req(req_bytes(m)) == Ok::<WireReq<Seq<char>>, DecodeError>(m),
{
    let found = choose|c: WireReq<Seq<char>>| req_fits(c) && req_bytes(m) == #[trigger] req_bytes(c);
    lemma_req_bytes_injective(found, m);
}

/// Writing gives back what was read: a buffer that decodes to a request is
/// the bytes of that request, to the last byte.
pub proof fn lemma_req_reencode(bytes: Seq<u8>)
    requires
        decode_req(bytes) is Ok,
    ensures
        req_fits(decode_req(bytes)->Ok_0),
        req_bytes(decode_req(bytes)->Ok_0) == bytes,
{
}

/// Reading gives back what was written: the bytes of a response decode to
/// that response.
pub proof fn lemma_resp_round_trip(m: WireResp<Seq<char>>)
    requires
        resp_fits(m),
    ensures
        decode_resp(resp_bytes(m)) == Ok::<WireResp<Seq<char>>, DecodeError>(m),
{
    let found = choose|c: WireResp<Seq<char>>|
        resp_fits(c) && resp_bytes(m) == #[trigger] resp_bytes(c);
    lemma_resp_bytes_injective(found, m);
}

/// Writing gives back what was read: a buffer that decodes to a response is
/// the bytes of that response, to the last byte.
pub proof fn lemma_resp_reencode(bytes: Seq<u8>)
    requires
        decode_resp(bytes) is Ok,
    ensures
        resp_fits(decode_resp(bytes)->Ok_0),
        resp_bytes(decode_resp(bytes)->Ok_0) == bytes,
{
}

/// A response of the executor whose identities fit 32 bits goes over the
/// wire whole but for the payload of its error: reading its bytes gives its
/// wire form, which has the identity of the call, the body of an answer, and
/// the code of an error.
pub proof fn lemma_resp_over_the_wire(resp: RespView)
    requires
        resp_fits(wire_of_resp(resp)),
        resp.id <= u32::MAX,
        resp.kind matches Ok(RespKindView::SolverCreated { id }) ==> id <= u32::MAX,
    ensures
        decode_resp(resp_bytes(wire_of_resp(resp))) == Ok::<WireResp<Seq<char>>, DecodeError>(
            wire_of_resp(resp),
        ),
        wire_of_resp(resp).id == resp.id,
        match resp.kind {
            Ok(RespKindView::SolverCreated { id }) => wire_of_resp(resp).kind
                == WireRespKind::<Seq<char>>::SolverCreated { id: id as u32 } && id as u32 == id,
            Ok(RespKindView::SolverResult { solution }) => wire_of_resp(resp).kind
                == (WireRespKind::SolverResult { solution }),
            Ok(RespKindView::Destroyed) => wire_of_resp(resp).kind
                == WireRespKind::<Seq<char>>::Destroyed,
            Err(e) => wire_of_resp(resp).kind == WireRespKind::<Seq<char>>::Failed {
                code: spec_error_code(e.kind),
            },
        },
{
    lemma_resp_round_trip(wire_of_resp(resp));
}

/// A request on the wire stands for one request of the executor, and no two
/// stand for the same.
pub proof fn lemma_req_of_wire_injective(a: WireReq<Seq<char>>, b: WireReq<Seq<char>>)
    requires
        req_of_wire(a) == req_of_wire(b),
    ensures
        a == b,
{
}

impl WireReq<String> {
    /// Whether the request is small enough for a message.
    pub fn fits(&self) -> (fits: bool)
        ensures
            fits == req_fits(self@),
    {
        match &self.kind {
            WireReqKind::CreateSolver { grid } => fits_message(grid.as_str()),
            _ => true,
        }
    }

    /// The bytes of the request on the wire.
    pub fn to_bytes(&self) -> (bytes: Vec<u8>)
        requires
            req_fits(self@),
        ensures
            bytes@ == req_bytes(self@),
    {
        let segment = self.to_segment();
        proof {
            lemma_req_segment_layout(self@);
        }
        write_segment(segment.as_slice())
    }

    /// Reads a request from a buffer that holds one message.
    pub fn from_bytes(bytes: &[u8]) -> (decoded: Result<WireReq<String>, DecodeError>)
        ensures
            req_outcome(decoded) == decode_req(bytes@),
    {
        let segment = match unframe(bytes) {
            Some(segment) => segment,
            None => {
                assert forall|m: WireReq<Seq<char>>| req_fits(m) implies bytes@
                    != #[trigger] req_bytes(m) by {
                    lemma_req_bytes_frame(m);
                }
                return Err(DecodeError::Malformed);
            },
        };
        let decoded = decode_req_segment(segment.as_slice());
        proof {
            match &decoded {
                Ok(m) => {
                    lemma_frame(segment@);
                    assert(bytes@ == req_bytes(m@));
                    lemma_req_round_trip(m@);
                },
                Err(_) => {
                    assert forall|m: WireReq<Seq<char>>| req_fits(m) implies bytes@
                        != #[trigger] req_bytes(m) by {
                        lemma_req_bytes_frame(m);
                    }
                },
            }
        }
        decoded
    }
}

impl WireResp<String> {
    /// Whether the response is small enough for a message.
    pub fn fits(&self) -> (fits: bool)
        ensures
            fits == resp_fits(self@),
    {
        match &self.kind {
            WireRespKind::SolverResult { solution } => fits_message(solution.as_str()),
            _ => true,
        }
    }

    /// The bytes of the response on the wire.
    pub fn to_bytes(&self) -> (bytes: Vec<u8>)
        requires
            resp_fits(self@),
        ensures
            bytes@ == resp_bytes(self@),
    {
        let segment = self.to_segment();
        proof {
            lemma_resp_segment_layout(self@);
        }
        write_segment(segment.as_slice())
    }

    /// Reads a response from a buffer that holds one message.
    pub fn from_bytes(bytes: &[u8]) -> (decoded: Result<WireResp<String>, DecodeError>)
        ensures
            resp_outcome(decoded) == decode_resp(bytes@),
    {
        let segment = match unframe(bytes) {
            Some(segment) => segment,
            None => {
                assert forall|m: WireResp<Seq<char>>| resp_fits(m) implies bytes@
                    != #[trigger] resp_bytes(m) by {
                    lemma_resp_bytes_frame(m);
                }
                return Err(DecodeError::Malformed);
            },
        };
        let decoded = decode_resp_segment(segment.as_slice());
        proof {
            match &decoded {
                Ok(m) => {
                    lemma_frame(segment@);
                    assert(bytes@ == resp_bytes(m@));
                    lemma_resp_round_trip(m@);
                },
                Err(_) => {
                    assert forall|m: WireResp<Seq<char>>| resp_fits(m) implies bytes@
                        != #[trigger] resp_bytes(m) by {
                        lemma_resp_bytes_frame(m);
                    }
                },
            }
        }
        decoded
    }
}

impl Req {
    /// Reads a request from a buffer that holds one message. The identities
    /// of the message become identities of the executor as they are.
    pub fn from_bytes(bytes: &[u8]) -> (decoded: Result<Req, DecodeError>)
        ensures
            match decode_req(bytes@) {
                Ok(m) => decoded matches Ok(req) && req@ == req_of_wire(m),
                Err(e) => decoded == Err::<Req, DecodeError>(e),
            },
    {
        match WireReq::from_bytes(bytes) {
            Ok(wire) => Ok(Req::from_wire(wire)),
            Err(e) => Err(e),
        }
    }
}

impl Resp {
    /// Whether the response is small enough for a message.
    pub fn fits(&self) -> (fits: bool)
        ensures
            fits == resp_fits(wire_of_resp(self@)),
    {
        match &self.kind {
            Ok(RespKind::SolverResult { solution }) => fits_message(solution.as_str()),
            _ => true,
        }
    }

    /// The bytes of the response on the wire. Of an identity its low 32
    /// bits are written, of an error its code.
    pub fn to_bytes(self) -> (bytes: Vec<u8>)
        requires
            resp_fits(wire_of_resp(self@)),
        ensures
            bytes@ == resp_bytes(wire_of_resp(self@)),
    {
        let wire = self.to_wire();
        wire.to_bytes()
    }
}

} // verus!
