//! The messages of the wire protocol.
//!
//! A request on the wire carries the identity of the call and one of three
//! bodies; a response carries the identity of the call that it answers and
//! either one of three bodies or an error code. Identities on the wire are
//! 32 bits wide.

use crate::error::ErrorKind;
use crate::executor::{Req, ReqKind, ReqKindView, ReqView, Resp, RespKind, RespKindView, RespView};
use vstd::prelude::*;

verus! {

/// The body of a request on the wire. `T` is the type of a text: `String`
/// in a message at hand, `Seq<char>` in its mathematical value.
#[derive(Debug, PartialEq, Eq)]
pub enum WireReqKind<T> {
    CreateSolver { grid: T },
    Solve { id: u32 },
    Destroy { id: u32 },
}

/// A request on the wire.
#[derive(Debug, PartialEq, Eq)]
pub struct WireReq<T> {
    pub id: u32,
    pub kind: WireReqKind<T>,
}

/// The body of a response on the wire: one of the three answers, or the
/// code of the error that the request ended in.
#[derive(Debug, PartialEq, Eq)]
pub enum WireRespKind<T> {
    SolverCreated { id: u32 },
    SolverResult { solution: T },
    Destroyed,
    Failed { code: u8 },
}

/// A response on the wire.
#[derive(Debug, PartialEq, Eq)]
pub struct WireResp<T> {
    pub id: u32,
    pub kind: WireRespKind<T>,
}

impl View for WireReq<String> {
    type V = WireReq<Seq<char>>;

    open spec fn view(&self) -> WireReq<Seq<char>> {
        WireReq {
            id: self.id,
            kind: match self.kind {
                WireReqKind::CreateSolver { grid } => WireReqKind::CreateSolver { grid: grid@ },
                WireReqKind::Solve { id } => WireReqKind::Solve { id },
                WireReqKind::Destroy { id } => WireReqKind::Destroy { id },
            },
        }
    }
}

impl View for WireResp<String> {
    type V = WireResp<Seq<char>>;

    open spec fn view(&self) -> WireResp<Seq<char>> {
        WireResp {
            id: self.id,
            kind: match self.kind {
                WireRespKind::SolverCreated { id } => WireRespKind::SolverCreated { id },
                WireRespKind::SolverResult { solution } => WireRespKind::SolverResult {
                    solution: solution@,
                },
                WireRespKind::Destroyed => WireRespKind::Destroyed,
                WireRespKind::Failed { code } => WireRespKind::Failed { code },
            },
        }
    }
}

/// The code of an invalid grid.
pub const CODE_BAD_GRID: u8 = 1;

/// The code of an identity without a session.
pub const CODE_NOT_AVAILABLE: u8 = 2;

/// The code of a puzzle without a solution.
pub const CODE_SOLUTION_NOT_FOUND: u8 = 3;

/// The code under which each kind of error goes over the wire.
pub open spec fn spec_error_code(kind: ErrorKind) -> u8 {
    match kind {
        ErrorKind::BadGrid => CODE_BAD_GRID,
        ErrorKind::NotAvailable(..) => CODE_NOT_AVAILABLE,
        ErrorKind::SolutionNotFound => CODE_SOLUTION_NOT_FOUND,
    }
}

/// The code under which each kind of error goes over the wire.
pub fn error_code(kind: ErrorKind) -> (code: u8)
    ensures
        code == spec_error_code(kind),
{
    match kind {
        ErrorKind::BadGrid => CODE_BAD_GRID,
        ErrorKind::NotAvailable(..) => CODE_NOT_AVAILABLE,
        ErrorKind::SolutionNotFound => CODE_SOLUTION_NOT_FOUND,
    }
}

/// The request that a wire request stands for. Nothing is lost: an identity
/// of 32 bits fits a machine word.
pub open spec fn req_of_wire(wire: WireReq<Seq<char>>) -> ReqView {
    ReqView {
        id: wire.id as usize,
        kind: match wire.kind {
            WireReqKind::CreateSolver { grid } => ReqKindView::CreateSolver { grid },
            WireReqKind::Solve { id } => ReqKindView::Solve { id: id as usize },
            WireReqKind::Destroy { id } => ReqKindView::Destroy { id: id as usize },
        },
    }
}

/// The wire form of a response. Identities are cut to their low 32 bits, and
/// of an error only its code remains.
pub open spec fn wire_of_resp(resp: RespView) -> WireResp<Seq<char>> {
    WireResp {
        id: resp.id as u32,
        kind: match resp.kind {
            Ok(RespKindView::SolverCreated { id }) => WireRespKind::SolverCreated { id: id as u32 },
            Ok(RespKindView::SolverResult { solution }) => WireRespKind::SolverResult { solution },
            Ok(RespKindView::Destroyed) => WireRespKind::Destroyed,
            Err(e) => WireRespKind::Failed { code: spec_error_code(e.kind) },
        },
    }
}

impl Req {
    /// The request that a wire request stands for.
    pub fn from_wire(wire: WireReq<String>) -> (req: Req)
        ensures
            req@ == req_of_wire(wire@),
    {
        let kind = match wire.kind {
            WireReqKind::CreateSolver { grid } => ReqKind::CreateSolver { grid },
            WireReqKind::Solve { id } => ReqKind::Solve { id: id as usize },
            WireReqKind::Destroy { id } => ReqKind::Destroy { id: id as usize },
        };
        Req { id: wire.id as usize, kind }
    }
}

impl Resp {
    /// The wire form of the response.
    pub fn to_wire(self) -> (wire: WireResp<String>)
        ensures
            wire@ == wire_of_resp(self@),
    {
        let kind = match self.kind {
            Ok(RespKind::SolverCreated { id }) => WireRespKind::SolverCreated { id: id as u32 },
            Ok(RespKind::SolverResult { solution }) => WireRespKind::SolverResult { solution },
            Ok(RespKind::Destroyed) => WireRespKind::Destroyed,
            Err(e) => WireRespKind::Failed { code: error_code(e.kind) },
        };
        WireResp { id: self.id as u32, kind }
    }
}

} // verus!
