//! Solver itself. The grid of a `Solver` never changes after it was created.

use sudoku::Sudoku;
use vstd::prelude::*;

verus! {

/// The puzzle type of the `sudoku` crate, carried through as an opaque value.
#[verifier::external_type_specification]
#[verifier::external_body]
pub struct ExSudoku(sudoku::Sudoku);

/// The 81 cells that a `Sudoku` holds, row by row; 0 stands for an empty cell.
pub uninterp spec fn sudoku_cells(s: Sudoku) -> Seq<u8>;

/// What `Sudoku::from_str` makes of a text: the cells of the puzzle, or the
/// reason why the text is no puzzle.
pub uninterp spec fn grid_parse(text: Seq<char>) -> Result<Seq<u8>, ParseError>;

/// What `Sudoku::solve_one` finds for a puzzle: the cells of a solution, or
/// `None` where the puzzle has none.
pub uninterp spec fn first_solution(cells: Seq<u8>) -> Option<Seq<u8>>;

/// The text that `Sudoku`'s `Display` writes for a grid.
pub uninterp spec fn grid_text(cells: Seq<u8>) -> Seq<char>;

/// The message that the `sudoku` crate's `Display` writes for a parse error.
pub uninterp spec fn parse_error_text(e: ParseError) -> Seq<char>;

/// Why a text could not be read as a puzzle.
#[derive(Clone, Copy, Debug, PartialEq, Eq, Structural)]
pub enum ParseError {
    /// The line with this number (counted from 1) does not hold 9 cells.
    InvalidLineLength(u8),
    /// The line with this number holds this character, which is no cell.
    InvalidNumber(u8, char),
    /// The text has fewer than 9 lines.
    NotEnoughRows,
}

impl ParseError {
    /// The description that belongs to each kind of parse failure.
    pub open spec fn spec_description(self) -> Seq<char> {
        match self {
            ParseError::InvalidLineLength(..) => "line contains more/less than 9 digits"@,
            ParseError::InvalidNumber(..) => "grid contains invalid digit"@,
            ParseError::NotEnoughRows => "grid contains more/less than 9 lines"@,
        }
    }

    /// A short, fixed description of the failure.
    pub fn description(&self) -> (text: &'static str)
        ensures
            text@ == self.spec_description(),
    {
        match self {
            ParseError::InvalidLineLength(..) => "line contains more/less than 9 digits",
            ParseError::InvalidNumber(..) => "grid contains invalid digit",
            ParseError::NotEnoughRows => "grid contains more/less than 9 lines",
        }
    }

    /// The message of the parser, with the line and the character that it
    /// objected to.
    pub fn to_text(&self) -> (text: String)
        ensures
            text@ == parse_error_text(*self),
    {
        parse_error_to_string(*self)
    }
}

/// Calls `to_string` on the parse error of the `sudoku` crate that has the
/// same variant and fields, which goes through its `Display`. The text is
/// the one that `parse_error_text` names for the error.
#[verifier::external_body]
fn parse_error_to_string(e: ParseError) -> (text: String)
    ensures
        text@ == parse_error_text(e),
{
    match e {
        ParseError::InvalidLineLength(line) => sudoku::ParseError::InvalidLineLength(line),
        ParseError::InvalidNumber(line, ch) => sudoku::ParseError::InvalidNumber(line, ch),
        ParseError::NotEnoughRows => sudoku::ParseError::NotEnoughRows,
    }.to_string()
}

/// The text of the solution that a solver with these cells finds, if any.
pub open spec fn solution_text(cells: Seq<u8>) -> Option<Seq<char>> {
    match first_solution(cells) {
        Some(solved) => Some(grid_text(solved)),
        None => None,
    }
}

/// Calls `Sudoku::from_str`. The result is a function of the text alone:
/// on success the puzzle holds the cells that `grid_parse` names, on failure
/// the error is the one that `grid_parse` names, variant for variant.
#[verifier::external_body]
fn sudoku_from_str(grid: &str) -> (parsed: Result<Sudoku, ParseError>)
    ensures
        match parsed {
            Ok(puzzle) => grid_parse(grid@) == Ok::<Seq<u8>, ParseError>(sudoku_cells(puzzle)),
            Err(e) => grid_parse(grid@) == Err::<Seq<u8>, ParseError>(e),
        },
{
    match Sudoku::from_str(grid) {
        Ok(puzzle) => Ok(puzzle),
        Err(sudoku::ParseError::InvalidLineLength(line)) => Err(ParseError::InvalidLineLength(line)),
        Err(sudoku::ParseError::InvalidNumber(line, ch)) => Err(ParseError::InvalidNumber(line, ch)),
        Err(sudoku::ParseError::NotEnoughRows) => Err(ParseError::NotEnoughRows),
    }
}

/// Calls `Sudoku::solve_one`, which searches on a copy of the puzzle. The
/// result is a function of the cells alone: the solution that
/// `first_solution` names, or `None` where it names none.
#[verifier::external_body]
fn sudoku_solve_one(puzzle: &Sudoku) -> (solved: Option<Sudoku>)
    ensures
        match solved {
            Some(s) => first_solution(sudoku_cells(*puzzle)) == Some(sudoku_cells(s)),
            None => first_solution(sudoku_cells(*puzzle)) is None,
        },
{
    puzzle.solve_one()
}

/// Calls `to_string` on a `Sudoku`, which goes through its `Display`. The
/// text is the one that `grid_text` names for the cells.
#[verifier::external_body]
fn sudoku_to_string(puzzle: &Sudoku) -> (text: String)
    ensures
        text@ == grid_text(sudoku_cells(*puzzle)),
{
    puzzle.to_string()
}

/// A puzzle that can be solved any number of times.
pub struct Solver(Sudoku);

impl View for Solver {
    type V = Seq<u8>;

    /// The cells of the puzzle.
    closed spec fn view(&self) -> Seq<u8> {
        sudoku_cells(self.0)
    }
}

impl Solver {
    /// Reads a puzzle from its text form: nine lines of nine cells each,
    /// `_` for an empty cell, `|` ignored.
    pub fn from_str(grid: &str) -> (made: Result<Solver, ParseError>)
        ensures
            match made {
                Ok(solver) => grid_parse(grid@) == Ok::<Seq<u8>, ParseError>(solver@),
                Err(e) => grid_parse(grid@) == Err::<Seq<u8>, ParseError>(e),
            },
    {
        match sudoku_from_str(grid) {
            Ok(puzzle) => Ok(Solver(puzzle)),
            Err(e) => Err(e),
        }
    }

    /// Searches for a solution and returns its text. The puzzle itself stays
    /// as it was, so a second call gives the same answer.
    pub fn solve(&mut self) -> (solution: Option<String>)
        ensures
            final(self)@ == old(self)@,
            solution matches Some(text) ==> solution_text(old(self)@) == Some(text@),
            solution is None ==> solution_text(old(self)@) is None,
    {
        match sudoku_solve_one(&self.0) {
            Some(solved) => Some(sudoku_to_string(&solved)),
            None => None,
        }
    }
}

} // verus!
