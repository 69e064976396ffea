//! The errors that a request to the session table can end in.

use crate::solver::ParseError;
use vstd::prelude::*;

verus! {

/// The kinds of failure that the session table reports.
#[derive(Clone, Copy, Debug, PartialEq, Eq, Structural)]
pub enum ErrorKind {
    /// The grid could not be read as a puzzle.
    BadGrid,
    /// No session with this identity is in the table.
    NotAvailable(usize),
    /// The puzzle of the session has no solution.
    SolutionNotFound,
}

impl ErrorKind {
    /// The description that belongs to each kind.
    pub open spec fn spec_description(self) -> Seq<char> {
        match self {
            ErrorKind::BadGrid => "grid couldn't be parsed"@,
            ErrorKind::NotAvailable(..) =>
                "solver with specified id not available at the moment or doesn't exist"@,
            ErrorKind::SolutionNotFound => "solution for the specified grid couldn't be found"@,
        }
    }

    /// A short, fixed description of the kind.
    pub fn description(&self) -> (text: &'static str)
        ensures
            text@ == self.spec_description(),
    {
        match self {
            ErrorKind::BadGrid => "grid couldn't be parsed",
            ErrorKind::NotAvailable(..) =>
                "solver with specified id not available at the moment or doesn't exist",
            ErrorKind::SolutionNotFound => "solution for the specified grid couldn't be found",
        }
    }
}

/// A failure of a request: its kind and, for a grid that could not be read,
/// what the parser objected to.
#[derive(Clone, Copy, Debug, PartialEq, Eq, Structural)]
pub struct Error {
    pub kind: ErrorKind,
    pub cause: Option<ParseError>,
}

impl Error {
    /// The error for a grid that the parser refused with `cause`.
    pub open spec fn spec_bad_grid(cause: ParseError) -> Error {
        Error { kind: ErrorKind::BadGrid, cause: Some(cause) }
    }

    /// The error for an identity that is not in the table.
    pub open spec fn spec_not_available(id: usize) -> Error {
        Error { kind: ErrorKind::NotAvailable(id), cause: None }
    }

    /// The error for a puzzle without a solution.
    pub open spec fn spec_solution_not_found() -> Error {
        Error { kind: ErrorKind::SolutionNotFound, cause: None }
    }

    /// The error for a grid that the parser refused with `cause`.
    pub fn bad_grid(cause: ParseError) -> (e: Error)
        ensures
            e == Error::spec_bad_grid(cause),
    {
        Error { kind: ErrorKind::BadGrid, cause: Some(cause) }
    }

    /// The error for an identity that is not in the table.
    pub fn not_available(id: usize) -> (e: Error)
        ensures
            e == Error::spec_not_available(id),
    {
        Error { kind: ErrorKind::NotAvailable(id), cause: None }
    }

    /// The error for a puzzle without a solution.
    pub fn solution_not_found() -> (e: Error)
        ensures
            e == Error::spec_solution_not_found(),
    {
        Error { kind: ErrorKind::SolutionNotFound, cause: None }
    }

    /// The description of the error's kind.
    pub fn description(&self) -> (text: &'static str)
        ensures
            text@ == self.kind.spec_description(),
    {
        self.kind.description()
    }
}

} // verus!
