use libsolver::context::Context;
use libsolver::error::ErrorKind;
use libsolver::executor::{handle_req, Executor, ExecutorCallback, Req, ReqKind, Resp, RespKind};
use libsolver::sync_executor::{following_call_id, SyncExecutor};
use std::sync::mpsc::channel;

const GRID: &str = "___|2__|_63\n3__|__5|4_1\n__1|__3|98_\n___|___|_9_\n___|538|___\n_3_|___|___\n_26|3__|5__\n5_3|7__|__8\n47_|__1|___";

const SOLUTION: &str = "\n854 219 763\n397 865 421\n261 473 985\n\n785 126 394\n649 538 172\n132 947 856\n\n926 384 517\n513 792 648\n478 651 239";

const NO_SOLUTION: &str = "11_|___|___\n___|___|___\n___|___|___\n___|___|___\n___|___|___\n___|___|___\n___|___|___\n___|___|___\n___|___|___";

fn created(kind: Result<RespKind, libsolver::error::Error>) -> usize {
    match kind {
        Ok(RespKind::SolverCreated { id }) => id,
        _ => panic!("no session was created"),
    }
}

fn solved(kind: Result<RespKind, libsolver::error::Error>) -> String {
    match kind {
        Ok(RespKind::SolverResult { solution }) => solution,
        _ => panic!("no solution was given"),
    }
}

fn failed(kind: Result<RespKind, libsolver::error::Error>) -> ErrorKind {
    match kind {
        Err(e) => e.kind,
        Ok(_) => panic!("the request did not fail"),
    }
}

#[test]
fn handle_req_echoes_the_identity_of_the_request() {
    let mut ctx = Context::new();
    let resp = handle_req(
        Req { id: 41, kind: ReqKind::CreateSolver { grid: GRID.to_string() } },
        &mut ctx,
    );
    assert_eq!(resp.id, 41);
    assert_eq!(created(resp.kind), 0);
    let resp = handle_req(Req { id: 42, kind: ReqKind::Solve { id: 0 } }, &mut ctx);
    assert_eq!(resp.id, 42);
    assert_eq!(solved(resp.kind), SOLUTION);
    let resp = handle_req(Req { id: 43, kind: ReqKind::Destroy { id: 0 } }, &mut ctx);
    assert_eq!(resp.id, 43);
    assert!(matches!(resp.kind, Ok(RespKind::Destroyed)));
    let resp = handle_req(Req { id: 44, kind: ReqKind::Solve { id: 0 } }, &mut ctx);
    assert_eq!(resp.id, 44);
    assert_eq!(failed(resp.kind), ErrorKind::NotAvailable(0));
}

#[test]
fn handle_req_reports_failures_and_goes_on() {
    let mut ctx = Context::new();
    let resp = handle_req(
        Req { id: 1, kind: ReqKind::CreateSolver { grid: "<bad grid>".to_string() } },
        &mut ctx,
    );
    assert_eq!(failed(resp.kind), ErrorKind::BadGrid);
    let resp = handle_req(Req { id: 2, kind: ReqKind::Destroy { id: 5 } }, &mut ctx);
    assert_eq!(failed(resp.kind), ErrorKind::NotAvailable(5));
    let resp = handle_req(
        Req { id: 3, kind: ReqKind::CreateSolver { grid: NO_SOLUTION.to_string() } },
        &mut ctx,
    );
    assert_eq!(created(resp.kind), 0);
    let resp = handle_req(Req { id: 4, kind: ReqKind::Solve { id: 0 } }, &mut ctx);
    assert_eq!(failed(resp.kind), ErrorKind::SolutionNotFound);
}

#[test]
fn executor_answers_in_the_order_of_arrival() {
    let mut executor = Executor::new();
    assert!(executor.is_idle());
    executor.send(Req { id: 10, kind: ReqKind::CreateSolver { grid: GRID.to_string() } });
    executor.send(Req { id: 11, kind: ReqKind::Solve { id: 0 } });
    executor.send(Req { id: 12, kind: ReqKind::Destroy { id: 0 } });
    executor.send(Req { id: 13, kind: ReqKind::Solve { id: 0 } });
    assert!(!executor.is_idle());

    let mut got: Vec<Resp> = Vec::new();
    let mut recv = |resp: Resp| got.push(resp);
    assert_eq!(executor.run(&mut recv), 4);
    assert!(executor.is_idle());
    assert_eq!(executor.next_id(), 1);

    let ids: Vec<usize> = got.iter().map(|r| r.id).collect();
    assert_eq!(ids, vec![10, 11, 12, 13]);
    let mut got = got.into_iter();
    assert_eq!(created(got.next().unwrap().kind), 0);
    assert_eq!(solved(got.next().unwrap().kind), SOLUTION);
    assert!(matches!(got.next().unwrap().kind, Ok(RespKind::Destroyed)));
    assert_eq!(failed(got.next().unwrap().kind), ErrorKind::NotAvailable(0));
}

#[test]
fn drain_gives_the_responses_in_order() {
    let mut executor = Executor::new();
    assert!(executor.drain().is_empty());
    executor.send(Req { id: 21, kind: ReqKind::CreateSolver { grid: NO_SOLUTION.to_string() } });
    executor.send(Req { id: 22, kind: ReqKind::CreateSolver { grid: GRID.to_string() } });
    executor.send(Req { id: 23, kind: ReqKind::Solve { id: 0 } });
    executor.send(Req { id: 24, kind: ReqKind::Solve { id: 1 } });
    let mut answers = executor.drain().into_iter();
    assert!(executor.is_idle());
    let first = answers.next().unwrap();
    assert_eq!((first.id, created(first.kind)), (21, 0));
    let second = answers.next().unwrap();
    assert_eq!((second.id, created(second.kind)), (22, 1));
    let third = answers.next().unwrap();
    assert_eq!((third.id, failed(third.kind)), (23, ErrorKind::SolutionNotFound));
    let fourth = answers.next().unwrap();
    assert_eq!((fourth.id, solved(fourth.kind)), (24, SOLUTION.to_string()));
    assert!(answers.next().is_none());
}

#[test]
fn process_next_takes_one_request_at_a_time() {
    let mut executor = Executor::new();
    assert!(executor.process_next().is_none());
    executor.send(Req { id: 1, kind: ReqKind::Solve { id: 9 } });
    executor.send(Req { id: 2, kind: ReqKind::CreateSolver { grid: GRID.to_string() } });
    let first = executor.process_next().unwrap();
    assert_eq!(first.id, 1);
    assert_eq!(failed(first.kind), ErrorKind::NotAvailable(9));
    assert!(!executor.is_idle());
    let second = executor.process_next().unwrap();
    assert_eq!(second.id, 2);
    assert_eq!(created(second.kind), 0);
    assert!(executor.is_idle());
    assert!(executor.process_next().is_none());
}

struct Counter {
    calls: usize,
}

impl ExecutorCallback for Counter {
    fn call(&mut self, _r: Resp) {
        self.calls += 1;
    }
}

#[test]
fn every_request_gets_exactly_one_response() {
    let mut executor = Executor::new();
    let mut counter = Counter { calls: 0 };
    assert_eq!(executor.run(&mut counter), 0);
    assert_eq!(counter.calls, 0);
    for i in 0..25 {
        executor.send(Req { id: i, kind: ReqKind::Destroy { id: i } });
    }
    assert_eq!(executor.pending_len(), 25);
    assert_eq!(executor.run(&mut counter), 25);
    assert_eq!(counter.calls, 25);
    assert_eq!(executor.pending_len(), 0);
}

#[test]
fn interleaved_producers_get_all_their_responses() {
    let producers = 4;
    let rounds = 5;
    let (tx, rx) = channel::<Req>();
    for r in 0..rounds {
        for p in 0..producers {
            let id = p * 1000 + r * 10;
            tx.send(Req { id, kind: ReqKind::CreateSolver { grid: GRID.to_string() } }).unwrap();
        }
        for p in 0..producers {
            let id = p * 1000 + r * 10;
            let session = r * producers + p;
            tx.send(Req { id: id + 1, kind: ReqKind::Solve { id: session } }).unwrap();
            tx.send(Req { id: id + 2, kind: ReqKind::Destroy { id: session } }).unwrap();
        }
    }
    drop(tx);
    let mut answers: Vec<Resp> = Vec::new();
    let mut executor = Executor::new();
    let mut sent = 0;
    for req in rx {
        executor.send(req);
        sent += 1;
        if sent % 3 == 0 {
            let mut recv = |resp: Resp| answers.push(resp);
            executor.run(&mut recv);
        }
    }
    let mut recv = |resp: Resp| answers.push(resp);
    executor.run(&mut recv);
    assert_eq!(answers.len(), producers * rounds * 3);
    let mut created_ids: Vec<usize> = Vec::new();
    for resp in answers.iter() {
        match &resp.kind {
            Ok(RespKind::SolverCreated { id }) => created_ids.push(*id),
            Ok(_) => {}
            Err(e) => panic!("request {} failed: {}", resp.id, e.description()),
        }
    }
    let expected: Vec<usize> = (0..producers * rounds).collect();
    assert_eq!(created_ids, expected);
}

#[test]
fn test_create() {
    let mut sync_exec = SyncExecutor::new();
    let response = sync_exec.create(GRID.to_string());
    assert_eq!(response, Ok(0));
}

#[test]
fn test_solution() {
    let mut sync_exec = SyncExecutor::new();
    let _ = sync_exec.create(GRID.to_string());
    let response = sync_exec.solution(0);
    assert_eq!(response, Ok(SOLUTION.to_string()));
}

#[test]
fn test_delete() {
    let mut sync_exec = SyncExecutor::new();
    let _ = sync_exec.create(GRID.to_string());
    let response = sync_exec.delete(0);
    assert_eq!(response, Ok(()));
}

#[test]
fn test_err_not_available() {
    let mut sync_exec = SyncExecutor::new();
    let e = sync_exec.delete(0).err().unwrap();
    assert_eq!(e.kind, ErrorKind::NotAvailable(0));
    assert_eq!(
        e.description(),
        "solver with specified id not available \
                    at the moment or doesn't exist"
    );
}

#[test]
fn test_err_solution_not_found() {
    let sudoku_grid = NO_SOLUTION;
    let mut sync_exec = SyncExecutor::new();
    let _ = sync_exec.create(sudoku_grid.to_string());
    let e = sync_exec.solution(0).err().unwrap();
    assert_eq!(e.kind, ErrorKind::SolutionNotFound);
    assert_eq!(e.description(), "solution for the specified grid couldn't be found");
}

#[test]
fn test_err_bad_grid() {
    let mut sync_exec = SyncExecutor::new();
    let e = sync_exec.create("<bad grid>".to_string()).err().unwrap();
    assert_eq!(e.kind, ErrorKind::BadGrid);
    assert_eq!(e.description(), "grid couldn't be parsed");
}

#[test]
fn sync_executor_runs_the_whole_life_of_a_session() {
    let mut sync_exec = SyncExecutor::new();
    assert_eq!(failed(sync_exec.send_sync(ReqKind::CreateSolver { grid: "<bad grid>".to_string() })), ErrorKind::BadGrid);
    assert_eq!(created(sync_exec.send_sync(ReqKind::CreateSolver { grid: GRID.to_string() })), 0);
    assert_eq!(solved(sync_exec.send_sync(ReqKind::Solve { id: 0 })), SOLUTION);
    assert!(matches!(sync_exec.send_sync(ReqKind::Destroy { id: 0 }), Ok(RespKind::Destroyed)));
    assert_eq!(failed(sync_exec.send_sync(ReqKind::Solve { id: 0 })), ErrorKind::NotAvailable(0));
    assert_eq!(created(sync_exec.send_sync(ReqKind::CreateSolver { grid: GRID.to_string() })), 1);
    assert_eq!(sync_exec.next_id(), 2);
}

#[test]
fn call_identities_start_again_after_the_largest() {
    assert_eq!(following_call_id(0), 1);
    assert_eq!(following_call_id(41), 42);
    assert_eq!(following_call_id(usize::MAX - 1), usize::MAX);
    assert_eq!(following_call_id(usize::MAX), 0);
}
