use libsolver::context::{solution_or_error, Context};
use libsolver::error::{Error, ErrorKind};
use libsolver::solver::ParseError;

const GRID: &str = "___|2__|_63\n3__|__5|4_1\n__1|__3|98_\n___|___|_9_\n___|538|___\n_3_|___|___\n_26|3__|5__\n5_3|7__|__8\n47_|__1|___";

const SOLUTION: &str = "\n854 219 763\n397 865 421\n261 473 985\n\n785 126 394\n649 538 172\n132 947 856\n\n926 384 517\n513 792 648\n478 651 239";

const NO_SOLUTION: &str = "11_|___|___\n___|___|___\n___|___|___\n___|___|___\n___|___|___\n___|___|___\n___|___|___\n___|___|___\n___|___|___";

#[test]
fn create_solve_destroy_end_to_end() {
    let mut ctx = Context::new();
    assert_eq!(ctx.new_solver(GRID), Ok(0));
    assert_eq!(ctx.solve(0), Ok(SOLUTION.to_string()));
    assert_eq!(ctx.destroy(0), Ok(()));
    assert_eq!(
        ctx.solve(0),
        Err(Error { kind: ErrorKind::NotAvailable(0), cause: None })
    );
}

#[test]
fn bad_grid_leaves_the_table_alone() {
    let mut ctx = Context::new();
    let e = ctx.new_solver("<bad grid>").err().unwrap();
    assert_eq!(e.kind, ErrorKind::BadGrid);
    assert_eq!(e.cause, Some(ParseError::InvalidLineLength(1)));
    assert_eq!(ctx.solve(0).err().unwrap().kind, ErrorKind::NotAvailable(0));
    assert_eq!(ctx.new_solver(GRID), Ok(0));
}

#[test]
fn created_session_is_available_at_once() {
    let mut ctx = Context::new();
    let id = ctx.new_solver(GRID).unwrap();
    assert_eq!(ctx.solve(id), Ok(SOLUTION.to_string()));
    let other = ctx.new_solver(NO_SOLUTION).unwrap();
    assert_eq!(
        ctx.solve(other),
        Err(Error { kind: ErrorKind::SolutionNotFound, cause: None })
    );
}

#[test]
fn unknown_identity_is_not_available() {
    let mut ctx = Context::new();
    assert_eq!(ctx.solve(7).err().unwrap().kind, ErrorKind::NotAvailable(7));
    assert_eq!(ctx.destroy(7).err().unwrap().kind, ErrorKind::NotAvailable(7));
    let id = ctx.new_solver(GRID).unwrap();
    assert_eq!(ctx.destroy(id + 1).err().unwrap().kind, ErrorKind::NotAvailable(id + 1));
    assert_eq!(ctx.destroy(id), Ok(()));
    assert_eq!(ctx.destroy(id).err().unwrap().kind, ErrorKind::NotAvailable(id));
}

#[test]
fn identities_count_up_and_never_come_back() {
    let mut ctx = Context::new();
    assert_eq!(ctx.new_solver(GRID), Ok(0));
    assert_eq!(ctx.new_solver(GRID), Ok(1));
    assert_eq!(ctx.destroy(0), Ok(()));
    assert_eq!(ctx.destroy(1), Ok(()));
    assert_eq!(ctx.new_solver(GRID), Ok(2));
    assert!(ctx.new_solver("nothing").is_err());
    assert_eq!(ctx.new_solver(GRID), Ok(3));
    assert_eq!(ctx.solve(0).err().unwrap().kind, ErrorKind::NotAvailable(0));
    assert_eq!(ctx.solve(2), Ok(SOLUTION.to_string()));
}

#[test]
fn session_stays_after_a_solve() {
    let mut ctx = Context::new();
    let id = ctx.new_solver(GRID).unwrap();
    assert_eq!(ctx.solve(id), Ok(SOLUTION.to_string()));
    assert_eq!(ctx.solve(id), Ok(SOLUTION.to_string()));
    let other = ctx.new_solver(NO_SOLUTION).unwrap();
    assert!(ctx.solve(other).is_err());
    assert_eq!(ctx.destroy(other), Ok(()));
}

#[test]
fn taken_solver_is_out_until_it_is_put_back() {
    let mut ctx = Context::new();
    let id = ctx.new_solver(GRID).unwrap();
    assert_eq!(ctx.next_id(), 1);
    let mut solver = ctx.take(id).ok().unwrap();
    assert_eq!(ctx.solve(id).err().unwrap().kind, ErrorKind::NotAvailable(id));
    assert_eq!(ctx.take(id).err().unwrap().kind, ErrorKind::NotAvailable(id));
    assert_eq!(solver.solve().unwrap(), SOLUTION);
    ctx.put(id, solver);
    assert_eq!(ctx.solve(id), Ok(SOLUTION.to_string()));
    assert_eq!(ctx.next_id(), 1);
}

#[test]
fn found_and_not_found_become_outcomes() {
    assert_eq!(solution_or_error(Some("abc".to_string())), Ok("abc".to_string()));
    assert_eq!(
        solution_or_error(None),
        Err(Error { kind: ErrorKind::SolutionNotFound, cause: None })
    );
}

#[test]
fn errors_are_described() {
    assert_eq!(ErrorKind::BadGrid.description(), "grid couldn't be parsed");
    assert_eq!(
        ErrorKind::NotAvailable(3).description(),
        "solver with specified id not available at the moment or doesn't exist"
    );
    assert_eq!(
        ErrorKind::SolutionNotFound.description(),
        "solution for the specified grid couldn't be found"
    );
    assert_eq!(Error::not_available(3).description(), ErrorKind::NotAvailable(3).description());
    assert_eq!(
        Error::bad_grid(ParseError::NotEnoughRows),
        Error { kind: ErrorKind::BadGrid, cause: Some(ParseError::NotEnoughRows) }
    );
    assert_eq!(Error::solution_not_found().kind, ErrorKind::SolutionNotFound);
}
