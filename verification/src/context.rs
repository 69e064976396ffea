//! The session table: live solvers, each under an identity of its own.

use crate::error::Error;
use crate::solver::{grid_parse, solution_text, Solver};
use std::collections::HashMap;
use vstd::prelude::*;

verus! {

broadcast use vstd::std_specs::hash::group_hash_axioms;

/// The session table as a mathematical value: the identity that the next
/// session will get, and the cells of the puzzle of each live session.
pub struct TableState {
    pub next_id: nat,
    pub sessions: Map<usize, Seq<u8>>,
}

impl TableState {
    /// The table before any session was created.
    pub open spec fn empty() -> TableState {
        TableState { next_id: 0, sessions: Map::empty() }
    }

    /// Every live session has an identity that was handed out already.
    pub open spec fn inv(self) -> bool {
        forall|id: usize| self.sessions.contains_key(id) ==> id < self.next_id
    }

    /// Creating a session from a grid: a grid that parses gets the next
    /// identity; any other leaves the table as it is.
    pub open spec fn create(self, grid: Seq<char>) -> (TableState, Result<usize, Error>) {
        match grid_parse(grid) {
            Ok(cells) => (
                TableState {
                    next_id: self.next_id + 1,
                    sessions: self.sessions.insert(self.next_id as usize, cells),
                },
                Ok(self.next_id as usize),
            ),
            Err(cause) => (self, Err(Error::spec_bad_grid(cause))),
        }
    }

    /// Taking a session out of the table, to work on its solver.
    pub open spec fn take(self, id: usize) -> (TableState, Result<Seq<u8>, Error>) {
        if self.sessions.contains_key(id) {
            (
                TableState { next_id: self.next_id, sessions: self.sessions.remove(id) },
                Ok(self.sessions[id]),
            )
        } else {
            (self, Err(Error::spec_not_available(id)))
        }
    }

    /// Putting a session back under its identity.
    pub open spec fn put(self, id: usize, cells: Seq<u8>) -> TableState {
        TableState { next_id: self.next_id, sessions: self.sessions.insert(id, cells) }
    }

    /// Solving the puzzle of a session: the table stays as it is.
    pub open spec fn solve(self, id: usize) -> (TableState, Result<Seq<char>, Error>) {
        if self.sessions.contains_key(id) {
            match solution_text(self.sessions[id]) {
                Some(text) => (self, Ok(text)),
                None => (self, Err(Error::spec_solution_not_found())),
            }
        } else {
            (self, Err(Error::spec_not_available(id)))
        }
    }

    /// Destroying a session: its identity leaves the table for good.
    pub open spec fn destroy(self, id: usize) -> (TableState, Result<(), Error>) {
        if self.sessions.contains_key(id) {
            (TableState { next_id: self.next_id, sessions: self.sessions.remove(id) }, Ok(()))
        } else {
            (self, Err(Error::spec_not_available(id)))
        }
    }
}

/// The empty table meets the invariant, and creating, solving and destroying
/// keep it, as long as the next identity still fits the machine's word.
pub proof fn lemma_inv_kept(state: TableState, grid: Seq<char>, id: usize)
    requires
        state.inv(),
        state.next_id <= usize::MAX,
    ensures
        TableState::empty().inv(),
        state.create(grid).0.inv(),
        state.solve(id).0.inv(),
        state.destroy(id).0.inv(),
{
}

/// Taking a session out and putting it back keep the invariant, and a
/// session that was taken out and put back unchanged leaves the table as it
/// was: this is what a solve does to the table.
pub proof fn lemma_take_then_put(state: TableState, id: usize)
    requires
        state.inv(),
    ensures
        state.take(id).0.inv(),
        forall|cells: Seq<u8>| id < state.next_id ==> (#[trigger] state.put(id, cells)).inv(),
        state.take(id).1 matches Ok(cells) ==> state.take(id).0.put(id, cells) == state,
        state.take(id).1 is Err ==> state.take(id) == (
            state,
            Err::<Seq<u8>, Error>(Error::spec_not_available(id)),
        ) && state.solve(id).1 == Err::<Seq<char>, Error>(Error::spec_not_available(id)),
{
    if state.sessions.contains_key(id) {
        assert(state.sessions.remove(id).insert(id, state.sessions[id]) =~= state.sessions);
    }
}

/// A session that was just created can be solved: the outcome is a solution
/// or `SolutionNotFound`, never `NotAvailable`.
pub proof fn lemma_created_is_available(state: TableState, grid: Seq<char>)
    requires
        state.create(grid).1 is Ok,
    ensures
        ({
            let (created, made) = state.create(grid);
            let (solved, outcome) = created.solve(made->Ok_0);
            &&& solved == created
            &&& outcome is Ok || outcome == Err::<Seq<char>, Error>(
                Error::spec_solution_not_found(),
            )
        }),
{
}

/// An identity without a live session is refused: solving and destroying
/// both end in `NotAvailable` with that identity and leave the table alone.
pub proof fn lemma_absent_is_not_available(state: TableState, id: usize)
    requires
        !state.sessions.contains_key(id),
    ensures
        state.solve(id) == (state, Err::<Seq<char>, Error>(Error::spec_not_available(id))),
        state.destroy(id) == (state, Err::<(), Error>(Error::spec_not_available(id))),
{
}

/// An identity that was never handed out has no live session.
pub proof fn lemma_never_created_is_absent(state: TableState, id: usize)
    requires
        state.inv(),
        id >= state.next_id,
    ensures
        !state.sessions.contains_key(id),
{
}

/// A destroyed session is gone, and nothing brings its identity back:
/// an identity below the next one that has no live session stays without one
/// through every later create, solve and destroy.
pub proof fn lemma_destroyed_stays_absent(
    state: TableState,
    id: usize,
    grid: Seq<char>,
    other: usize,
)
    requires
        state.next_id <= usize::MAX,
    ensures
        state.destroy(id).1 is Ok ==> !state.destroy(id).0.sessions.contains_key(id),
        id < state.next_id && !state.sessions.contains_key(id) ==> {
            &&& !state.create(grid).0.sessions.contains_key(id)
            &&& !state.solve(other).0.sessions.contains_key(id)
            &&& !state.destroy(other).0.sessions.contains_key(id)
        },
{
}

/// Identities count up: a create hands out the next identity and moves it on
/// by one; a refused create, a solve and a destroy leave it where it is.
pub proof fn lemma_identities_count_up(state: TableState, grid: Seq<char>, id: usize)
    requires
        state.next_id <= usize::MAX,
    ensures
        state.create(grid).1 matches Ok(made) ==> made == state.next_id && state.create(
            grid,
        ).0.next_id == made + 1,
        state.create(grid).1 is Err ==> state.create(grid).0 == state,
        state.solve(id).0.next_id == state.next_id,
        state.destroy(id).0.next_id == state.next_id,
{
}

/// What a solve request returns, with the text taken by its view.
pub open spec fn text_outcome(r: Result<String, Error>) -> Result<Seq<char>, Error> {
    match r {
        Ok(text) => Ok(text@),
        Err(e) => Err(e),
    }
}

/// Turns what a solver found into the outcome of a solve request.
pub fn solution_or_error(found: Option<String>) -> (outcome: Result<String, Error>)
    ensures
        match found {
            Some(text) => outcome == Ok::<String, Error>(text),
            None => outcome == Err::<String, Error>(Error::spec_solution_not_found()),
        },
{
    match found {
        Some(text) => Ok(text),
        None => Err(Error::solution_not_found()),
    }
}

/// The session table. Identities count up from 0 and are never handed out
/// twice, also not after the session that had one was destroyed.
pub struct Context {
    next_id: usize,
    solvers: HashMap<usize, Solver>,
}

impl View for Context {
    type V = TableState;

    closed spec fn view(&self) -> TableState {
        TableState {
            next_id: self.next_id as nat,
            sessions: Map::new(
                |id: usize| self.solvers@.contains_key(id),
                |id: usize| self.solvers@[id]@,
            ),
        }
    }
}

impl Context {
    /// A table without sessions, whose first identity will be 0.
    pub fn new() -> (ctx: Context)
        ensures
            ctx@ == TableState::empty(),
    {
        let ctx = Context { next_id: 0, solvers: HashMap::new() };
        assert(ctx@.sessions =~= Map::<usize, Seq<u8>>::empty());
        ctx
    }

    /// The identity that the next session will get.
    pub fn next_id(&self) -> (id: usize)
        ensures
            id == self@.next_id,
    {
        self.next_id
    }

    /// Parses the grid and, if it is a puzzle, stores a solver for it under
    /// the next identity.
    pub fn new_solver(&mut self, grid: &str) -> (made: Result<usize, Error>)
        requires
            old(self)@.next_id < usize::MAX,
        ensures
            (final(self)@, made) == old(self)@.create(grid@),
    {
        let new_solver = match Solver::from_str(grid) {
            Ok(solver) => solver,
            Err(cause) => {
                return Err(Error::bad_grid(cause));
            },
        };
        let solver_id = self.next_id;
        let ghost before = self@;
        self.next_id = solver_id + 1;
        self.solvers.insert(solver_id, new_solver);
        assert(self@.sessions =~= before.sessions.insert(solver_id, new_solver@));
        Ok(solver_id)
    }

    /// Takes a solver out of the table, so that it can be worked on while the
    /// table is free. Whoever takes one puts it back, or drops it for good.
    pub fn take(&mut self, id: usize) -> (taken: Result<Solver, Error>)
        ensures
            match taken {
                Ok(solver) => (final(self)@, Ok::<Seq<u8>, Error>(solver@)) == old(self)@.take(id),
                Err(e) => (final(self)@, Err::<Seq<u8>, Error>(e)) == old(self)@.take(id),
            },
    {
        let ghost before = self@;
        match self.solvers.remove(&id) {
            Some(solver) => {
                assert(self@.sessions =~= before.sessions.remove(id));
                Ok(solver)
            },
            None => {
                assert(self@.sessions =~= before.sessions);
                Err(Error::not_available(id))
            },
        }
    }

    /// Puts a solver back under the identity that it was taken from.
    pub fn put(&mut self, id: usize, solver: Solver)
        requires
            id < old(self)@.next_id,
        ensures
            final(self)@ == old(self)@.put(id, solver@),
    {
        self.put_back(id, solver);
    }

    /// Puts a solver under an identity, whatever the next identity is.
    fn put_back(&mut self, id: usize, solver: Solver)
        ensures
            final(self)@ == old(self)@.put(id, solver@),
    {
        let ghost before = self@;
        self.solvers.insert(id, solver);
        assert(self@.sessions =~= before.sessions.insert(id, solver@));
    }

    /// Solves the puzzle of the session `id`. The solver leaves the table
    /// while it works and is put back whatever it found.
    pub fn solve(&mut self, id: usize) -> (outcome: Result<String, Error>)
        ensures
            (final(self)@, text_outcome(outcome)) == old(self)@.solve(id),
    {
        let ghost before = self@;
        let mut solver = match self.take(id) {
            Ok(solver) => solver,
            Err(e) => {
                return Err(e);
            },
        };
        let maybe_solution = solver.solve();
        self.put_back(id, solver);
        assert(self@.sessions =~= before.sessions);
        solution_or_error(maybe_solution)
    }

    /// Removes the session `id` for good.
    pub fn destroy(&mut self, id: usize) -> (outcome: Result<(), Error>)
        ensures
            (final(self)@, outcome) == old(self)@.destroy(id),
    {
        match self.take(id) {
            Ok(_solver) => Ok(()),
            Err(e) => Err(e),
        }
    }
}

} // verus!
