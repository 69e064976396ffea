//! Executor - actor-like processor of the incoming messages.
//!
//! An `Executor` owns a session table and a queue of requests. Requests are
//! taken from the queue one at a time, in the order in which they came, and
//! each one is answered by exactly one response that carries its identity.

use crate::context::{Context, TableState};
use crate::error::Error;
use std::collections::VecDeque;
use vstd::prelude::*;

verus! {

/// A request: what to do, and the identity under which the caller will look
/// for the answer.
#[derive(Debug, PartialEq, Eq)]
pub struct Req {
    pub id: usize,
    pub kind: ReqKind,
}

#[derive(Debug, PartialEq, Eq)]
pub enum ReqKind {
    CreateSolver { grid: String },
    Solve { id: usize },
    Destroy { id: usize },
}

/// A response: the identity of the request that it answers, and the outcome.
#[derive(Debug, PartialEq, Eq)]
pub struct Resp {
    pub id: usize,
    pub kind: Result<RespKind, Error>,
}

#[derive(Debug, PartialEq, Eq)]
pub enum RespKind {
    SolverCreated { id: usize },
    SolverResult { solution: String },
    Destroyed,
}

/// A request kind as a mathematical value.
pub enum ReqKindView {
    CreateSolver { grid: Seq<char> },
    Solve { id: usize },
    Destroy { id: usize },
}

/// A request as a mathematical value.
pub struct ReqView {
    pub id: usize,
    pub kind: ReqKindView,
}

/// The body of a successful response as a mathematical value.
pub enum RespKindView {
    SolverCreated { id: usize },
    SolverResult { solution: Seq<char> },
    Destroyed,
}

/// A response as a mathematical value.
pub struct RespView {
    pub id: usize,
    pub kind: Result<RespKindView, Error>,
}

impl View for ReqKind {
    type V = ReqKindView;

    open spec fn view(&self) -> ReqKindView {
        match self {
            ReqKind::CreateSolver { grid } => ReqKindView::CreateSolver { grid: grid@ },
            ReqKind::Solve { id } => ReqKindView::Solve { id: *id },
            ReqKind::Destroy { id } => ReqKindView::Destroy { id: *id },
        }
    }
}

impl View for Req {
    type V = ReqView;

    open spec fn view(&self) -> ReqView {
        ReqView { id: self.id, kind: self.kind@ }
    }
}

impl View for RespKind {
    type V = RespKindView;

    open spec fn view(&self) -> RespKindView {
        match self {
            RespKind::SolverCreated { id } => RespKindView::SolverCreated { id: *id },
            RespKind::SolverResult { solution } => RespKindView::SolverResult {
                solution: solution@,
            },
            RespKind::Destroyed => RespKindView::Destroyed,
        }
    }
}

/// The outcome of a request, with the body taken by its view.
pub open spec fn outcome_view(outcome: Result<RespKind, Error>) -> Result<RespKindView, Error> {
    match outcome {
        Ok(kind) => Ok(kind@),
        Err(e) => Err(e),
    }
}

impl View for Resp {
    type V = RespView;

    open spec fn view(&self) -> RespView {
        RespView { id: self.id, kind: outcome_view(self.kind) }
    }
}

/// Responses as mathematical values, in their order.
pub open spec fn resp_views(resps: Seq<Resp>) -> Seq<RespView> {
    Seq::new(resps.len(), |i: int| resps[i]@)
}

/// What handling one kind of request does to the table, and its outcome.
pub open spec fn step(state: TableState, kind: ReqKindView) -> (
    TableState,
    Result<RespKindView, Error>,
) {
    match kind {
        ReqKindView::CreateSolver { grid } => {
            let (next, made) = state.create(grid);
            match made {
                Ok(id) => (next, Ok(RespKindView::SolverCreated { id })),
                Err(e) => (next, Err(e)),
            }
        },
        ReqKindView::Solve { id } => {
            let (next, solved) = state.solve(id);
            match solved {
                Ok(solution) => (next, Ok(RespKindView::SolverResult { solution })),
                Err(e) => (next, Err(e)),
            }
        },
        ReqKindView::Destroy { id } => {
            let (next, destroyed) = state.destroy(id);
            match destroyed {
                Ok(_) => (next, Ok(RespKindView::Destroyed)),
                Err(e) => (next, Err(e)),
            }
        },
    }
}

/// What handling one request does to the table, and the response to it: the
/// response carries the identity of the request.
pub open spec fn respond(state: TableState, req: ReqView) -> (TableState, RespView) {
    let (next, outcome) = step(state, req.kind);
    (next, RespView { id: req.id, kind: outcome })
}

/// What handling a queue of requests, oldest first, does to the table, and
/// the responses in the order in which they are given.
pub open spec fn run(state: TableState, reqs: Seq<ReqView>) -> (TableState, Seq<RespView>)
    decreases reqs.len(),
{
    if reqs.len() == 0 {
        (state, Seq::empty())
    } else {
        let (next, first) = respond(state, reqs[0]);
        let (last, rest) = run(next, reqs.drop_first());
        (last, seq![first] + rest)
    }
}

/// No request moves the next identity back, and none moves it on by more
/// than one.
pub proof fn lemma_step_next_id(state: TableState, kind: ReqKindView)
    ensures
        state.next_id <= step(state, kind).0.next_id <= state.next_id + 1,
{
}

/// Handling requests keeps the invariant of the table.
pub proof fn lemma_step_inv(state: TableState, kind: ReqKindView)
    requires
        state.inv(),
        state.next_id <= usize::MAX,
    ensures
        step(state, kind).0.inv(),
{
}

/// Every request of a queue is answered exactly once, in the order of the
/// queue, and each response carries the identity of its request. The next
/// identity of the table never moves back.
pub proof fn lemma_run_answers_each(state: TableState, reqs: Seq<ReqView>)
    ensures
        run(state, reqs).1.len() == reqs.len(),
        forall|i: int| 0 <= i < reqs.len() ==> (#[trigger] run(state, reqs).1[i]).id == reqs[i].id,
        state.next_id <= run(state, reqs).0.next_id <= state.next_id + reqs.len(),
    decreases reqs.len(),
{
    if reqs.len() > 0 {
        let (next, first) = respond(state, reqs[0]);
        lemma_step_next_id(state, reqs[0].kind);
        lemma_run_answers_each(next, reqs.drop_first());
        let rest = run(next, reqs.drop_first()).1;
        assert forall|i: int| 0 <= i < reqs.len() implies (#[trigger] run(state, reqs).1[i]).id
            == reqs[i].id by {
            if i > 0 {
                assert(run(state, reqs).1[i] == rest[i - 1]);
                assert(reqs.drop_first()[i - 1] == reqs[i]);
            }
        }
    }
}

/// Handling a queue keeps the invariant of the table, and an identity that
/// was handed out and has no live session gets none back, whatever the
/// queue holds.
pub proof fn lemma_run_keeps_absent(state: TableState, reqs: Seq<ReqView>, id: usize)
    requires
        state.inv(),
        state.next_id + reqs.len() <= usize::MAX,
    ensures
        run(state, reqs).0.inv(),
        id < state.next_id && !state.sessions.contains_key(id) ==> !run(
            state,
            reqs,
        ).0.sessions.contains_key(id),
    decreases reqs.len(),
{
    if reqs.len() > 0 {
        let (next, first) = respond(state, reqs[0]);
        lemma_step_next_id(state, reqs[0].kind);
        lemma_step_inv(state, reqs[0].kind);
        lemma_run_keeps_absent(next, reqs.drop_first(), id);
    }
}

/// A queue handled in two parts gives what it gives handled at once.
pub proof fn lemma_run_split(state: TableState, first: Seq<ReqView>, second: Seq<ReqView>)
    ensures
        run(state, first + second) == ({
            let (middle, early) = run(state, first);
            let (last, late) = run(middle, second);
            (last, early + late)
        }),
    decreases first.len(),
{
    if first.len() == 0 {
        assert(first + second =~= second);
        assert(Seq::<RespView>::empty() + run(state, second).1 =~= run(state, second).1);
    } else {
        let (next, head) = respond(state, first[0]);
        assert((first + second)[0] == first[0]);
        assert((first + second).drop_first() =~= first.drop_first() + second);
        lemma_run_split(next, first.drop_first(), second);
        let (middle, early) = run(next, first.drop_first());
        let (last, late) = run(middle, second);
        assert(seq![head] + (early + late) =~= (seq![head] + early) + late);
    }
}

/// Identities are handed out in strictly increasing order: whatever requests
/// are handled between two creates, the later one gets the larger identity.
pub proof fn lemma_identities_increase(
    state: TableState,
    first_grid: Seq<char>,
    between: Seq<ReqView>,
    second_grid: Seq<char>,
)
    requires
        state.next_id + between.len() + 1 <= usize::MAX,
    ensures
        ({
            let (created, first) = state.create(first_grid);
            let (later, _answers) = run(created, between);
            let (_last, second) = later.create(second_grid);
            first matches Ok(a) ==> second matches Ok(b) ==> a < b
        }),
{
    let (created, first) = state.create(first_grid);
    lemma_run_answers_each(created, between);
}

/// Handles one kind of request on the table and gives its outcome.
fn handle_kind(req_kind: ReqKind, ctx: &mut Context) -> (outcome: Result<RespKind, Error>)
    requires
        req_kind is CreateSolver ==> old(ctx)@.next_id < usize::MAX,
    ensures
        (final(ctx)@, outcome_view(outcome)) == step(old(ctx)@, req_kind@),
{
    match req_kind {
        ReqKind::CreateSolver { grid } => {
            let id = match ctx.new_solver(grid.as_str()) {
                Ok(id) => id,
                Err(e) => {
                    return Err(e);
                },
            };
            Ok(RespKind::SolverCreated { id })
        },
        ReqKind::Solve { id } => {
            let solution = match ctx.solve(id) {
                Ok(solution) => solution,
                Err(e) => {
                    return Err(e);
                },
            };
            Ok(RespKind::SolverResult { solution })
        },
        ReqKind::Destroy { id } => {
            match ctx.destroy(id) {
                Ok(_) => Ok(RespKind::Destroyed),
                Err(e) => Err(e),
            }
        },
    }
}

/// Handles one request on the table and gives the response to it. A failure
/// of the request is part of the response; the table stays usable.
pub fn handle_req(req: Req, ctx: &mut Context) -> (resp: Resp)
    requires
        req.kind is CreateSolver ==> old(ctx)@.next_id < usize::MAX,
    ensures
        (final(ctx)@, resp@) == respond(old(ctx)@, req@),
{
    let resp_kind = handle_kind(req.kind, ctx);
    Resp { id: req.id, kind: resp_kind }
}

/// Receives the responses of an executor.
pub trait ExecutorCallback: Send {
    fn call(&mut self, r: Resp);
}

/// Calls a closure through std's `FnMut::call_mut`. Nothing is claimed of
/// what the closure does with the response.
#[verifier::external_body]
fn call_closure<F: FnMut(Resp)>(f: &mut F, resp: Resp) {
    f(resp)
}

/// Every closure that takes a response can receive the responses of an
/// executor.
impl<F: FnMut(Resp) + Send> ExecutorCallback for F {
    fn call(&mut self, resp: Resp) {
        call_closure(self, resp)
    }
}

/// The actor: a session table of its own and the requests that wait for it.
pub struct Executor {
    ctx: Context,
    queue: VecDeque<Req>,
}

impl Executor {
    /// The state of the session table.
    pub closed spec fn table(&self) -> TableState {
        self.ctx@
    }

    /// The requests that wait, oldest first.
    pub closed spec fn pending(&self) -> Seq<ReqView> {
        Seq::new(self.queue@.len(), |i: int| self.queue@[i]@)
    }

    /// An idle executor with an empty table.
    pub fn new() -> (executor: Executor)
        ensures
            executor.table() == TableState::empty(),
            executor.pending() == Seq::<ReqView>::empty(),
    {
        Executor { ctx: Context::new(), queue: VecDeque::new() }
    }

    /// Puts a request at the end of the queue. The queue has no bound, and
    /// the table is not touched.
    pub fn send(&mut self, req: Req)
        ensures
            final(self).table() == old(self).table(),
            final(self).pending() == old(self).pending().push(req@),
    {
        self.queue.push_back(req);
    }

    /// The identity that the next session of the table will get.
    pub fn next_id(&self) -> (id: usize)
        ensures
            id == self.table().next_id,
    {
        self.ctx.next_id()
    }

    /// The number of requests that wait.
    pub fn pending_len(&self) -> (len: usize)
        ensures
            len == self.pending().len(),
    {
        self.queue.len()
    }

    /// Whether no request waits.
    pub fn is_idle(&self) -> (idle: bool)
        ensures
            idle == (self.pending().len() == 0),
    {
        self.queue.len() == 0
    }

    /// Takes the oldest request from the queue, handles it and gives the
    /// response to it. With an empty queue nothing happens.
    pub fn process_next(&mut self) -> (answer: Option<Resp>)
        requires
            old(self).pending().len() > 0 && old(self).pending()[0].kind is CreateSolver
                ==> old(self).table().next_id < usize::MAX,
        ensures
            match answer {
                Some(resp) => {
                    &&& old(self).pending().len() > 0
                    &&& (final(self).table(), resp@) == respond(
                        old(self).table(),
                        old(self).pending()[0],
                    )
                    &&& final(self).pending() == old(self).pending().drop_first()
                },
                None => {
                    &&& old(self).pending().len() == 0
                    &&& final(self).table() == old(self).table()
                    &&& final(self).pending() == old(self).pending()
                },
            },
    {
        match self.queue.pop_front() {
            Some(req) => {
                let resp = handle_req(req, &mut self.ctx);
                Some(resp)
            },
            None => None,
        }
    }

    /// Handles every waiting request, oldest first, and gives the responses
    /// in the order of the requests: one for each.
    pub fn drain(&mut self) -> (answers: Vec<Resp>)
        requires
            old(self).table().next_id + old(self).pending().len() <= usize::MAX,
        ensures
            final(self).pending() == Seq::<ReqView>::empty(),
            (final(self).table(), resp_views(answers@)) == run(
                old(self).table(),
                old(self).pending(),
            ),
    {
        let mut answers: Vec<Resp> = Vec::new();
        loop
            invariant
                self.table().next_id + self.pending().len() <= usize::MAX,
                run(old(self).table(), old(self).pending()) == (
                    run(self.table(), self.pending()).0,
                    resp_views(answers@) + run(self.table(), self.pending()).1,
                ),
            ensures
                self.pending() == Seq::<ReqView>::empty(),
                (self.table(), resp_views(answers@)) == run(
                    old(self).table(),
                    old(self).pending(),
                ),
            decreases self.pending().len(),
        {
            let ghost before = (self.table(), self.pending());
            let ghost given = resp_views(answers@);
            match self.process_next() {
                Some(resp) => {
                    let ghost first = resp@;
                    answers.push(resp);
                    proof {
                        let rest = run(self.table(), self.pending()).1;
                        assert(resp_views(answers@) =~= given + seq![first]);
                        assert(given + (seq![first] + rest) =~= (given + seq![first]) + rest);
                    }
                },
                None => {
                    assert(resp_views(answers@) + Seq::<RespView>::empty() =~= resp_views(
                        answers@,
                    ));
                    break ;
                },
            }
        }
        answers
    }

    /// Handles every waiting request, oldest first, and hands each response
    /// to `recv` before the next request is touched. Returns the number of
    /// responses that were handed over: one for each request.
    pub fn run<F: ExecutorCallback>(&mut self, recv: &mut F) -> (delivered: usize)
        requires
            old(self).table().next_id + old(self).pending().len() <= usize::MAX,
        ensures
            delivered == old(self).pending().len(),
            final(self).pending() == Seq::<ReqView>::empty(),
            final(self).table() == run(old(self).table(), old(self).pending()).0,
    {
        let mut delivered: usize = 0;
        loop
            invariant
                self.table().next_id + self.pending().len() <= usize::MAX,
                delivered + self.pending().len() == old(self).pending().len() <= usize::MAX,
                run(self.table(), self.pending()).0 == run(
                    old(self).table(),
                    old(self).pending(),
                ).0,
            ensures
                delivered == old(self).pending().len(),
                self.pending() == Seq::<ReqView>::empty(),
                self.table() == run(old(self).table(), old(self).pending()).0,
            decreases self.pending().len(),
        {
            match self.process_next() {
                Some(resp) => {
                    recv.call(resp);
                    delivered = delivered + 1;
                },
                None => {
                    break ;
                },
            }
        }
        delivered
    }
}

} // verus!
