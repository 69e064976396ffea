//! Synchronous wrapper around `Executor`.
//!
//! Allows to use an `Executor` as if it was fully synchronous: one call
//! sends a request and comes back with the outcome of that very request.

use crate::context::{text_outcome, TableState};
use crate::error::Error;
use crate::executor::{outcome_view, step, Executor, Req, ReqKind, ReqView, RespKind};
use vstd::pervasive::unreached;
use vstd::prelude::*;

verus! {

/// The identity that follows `id` among the identities of calls; after the
/// largest one the count starts again at 0.
pub open spec fn next_call_id(id: usize) -> usize {
    if id == usize::MAX {
        0
    } else {
        (id + 1) as usize
    }
}

/// The identity that follows `id` among the identities of calls.
pub fn following_call_id(id: usize) -> (next: usize)
    ensures
        next == next_call_id(id),
{
    if id == usize::MAX {
        0
    } else {
        id + 1
    }
}

/// An executor together with the counter from which the identities of its
/// calls are taken. The counter is no part of the session table.
pub struct SyncExecutor {
    executor: Executor,
    next_msg_id: usize,
}

impl SyncExecutor {
    /// The state of the session table of the executor.
    pub closed spec fn table(&self) -> TableState {
        self.executor.table()
    }

    /// The identity that the next call will send its request under.
    pub closed spec fn next_msg_id(&self) -> usize {
        self.next_msg_id
    }

    /// Between two calls no request waits in the executor.
    pub closed spec fn wf(&self) -> bool {
        self.executor.pending() == Seq::<ReqView>::empty()
    }

    /// A wrapper around a new executor; its first call has the identity 0.
    pub fn new() -> (sync_exec: SyncExecutor)
        ensures
            sync_exec.wf(),
            sync_exec.table() == TableState::empty(),
            sync_exec.next_msg_id() == 0,
    {
        SyncExecutor { executor: Executor::new(), next_msg_id: 0 }
    }

    /// The identity that the next session of the table will get.
    pub fn next_id(&self) -> (id: usize)
        ensures
            id == self.table().next_id,
    {
        self.executor.next_id()
    }

    /// Sends one request and waits for its outcome. The response that comes
    /// back carries the identity under which the request was sent.
    pub fn send_sync(&mut self, req_kind: ReqKind) -> (outcome: Result<RespKind, Error>)
        requires
            old(self).wf(),
            req_kind is CreateSolver ==> old(self).table().next_id < usize::MAX,
        ensures
            final(self).wf(),
            (final(self).table(), outcome_view(outcome)) == step(old(self).table(), req_kind@),
            final(self).next_msg_id() == next_call_id(old(self).next_msg_id()),
    {
        let msg_id = self.next_msg_id;
        self.next_msg_id = following_call_id(msg_id);
        let req = Req { id: msg_id, kind: req_kind };
        let ghost sent = req@;
        self.executor.send(req);
        assert(self.executor.pending() =~= seq![sent]);
        match self.executor.process_next() {
            Some(resp) => {
                assert(resp.id == msg_id);
                assert(self.executor.pending() =~= Seq::<ReqView>::empty());
                resp.kind
            },
            None => unreached(),
        }
    }

    /// Creates a session for a grid and gives its identity.
    pub fn create(&mut self, grid: String) -> (made: Result<usize, Error>)
        requires
            old(self).wf(),
            old(self).table().next_id < usize::MAX,
        ensures
            final(self).wf(),
            (final(self).table(), made) == old(self).table().create(grid@),
            final(self).next_msg_id() == next_call_id(old(self).next_msg_id()),
    {
        match self.send_sync(ReqKind::CreateSolver { grid }) {
            Ok(RespKind::SolverCreated { id }) => Ok(id),
            Ok(_) => unreached(),
            Err(e) => Err(e),
        }
    }

    /// Solves the puzzle of a session and gives the text of the solution.
    pub fn solution(&mut self, id: usize) -> (outcome: Result<String, Error>)
        requires
            old(self).wf(),
        ensures
            final(self).wf(),
            (final(self).table(), text_outcome(outcome)) == old(self).table().solve(id),
            final(self).next_msg_id() == next_call_id(old(self).next_msg_id()),
    {
        match self.send_sync(ReqKind::Solve { id }) {
            Ok(RespKind::SolverResult { solution }) => Ok(solution),
            Ok(_) => unreached(),
            Err(e) => Err(e),
        }
    }

    /// Destroys a session.
    pub fn delete(&mut self, id: usize) -> (outcome: Result<(), Error>)
        requires
            old(self).wf(),
        ensures
            final(self).wf(),
            (final(self).table(), outcome) == old(self).table().destroy(id),
            final(self).next_msg_id() == next_call_id(old(self).next_msg_id()),
    {
        match self.send_sync(ReqKind::Destroy { id }) {
            Ok(RespKind::Destroyed) => Ok(()),
            Ok(_) => unreached(),
            Err(e) => Err(e),
        }
    }
}

} // verus!
