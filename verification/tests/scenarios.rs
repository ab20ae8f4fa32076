//! End-to-end scenarios: the laws on concrete computations.
//!
//! Markers stand for the messages a consumer would print; each test names
//! the mapping it uses.

use switch_resume::{run, Fault, Prog, TaskResult};

fn done() -> Box<Prog> {
    Box::new(Prog::Done)
}

/// Resume transparency: a handler that resumes at once with 9 and returns
/// the resulting continuation unmodified equals never suspending and taking
/// 9 straight.
#[test]
fn immediate_resume_is_transparent() {
    let branch = || Box::new(Prog::Probe(Box::new(Prog::Inc(1, done()))));
    let handler = Prog::Resume(9, done());
    let suspended = Prog::Suspend(Box::new(handler), branch());
    let direct = Prog::Put(9, branch());
    let out_suspended = run(suspended);
    let out_direct = run(direct);
    assert_eq!(out_suspended.result, out_direct.result);
    assert_eq!(out_suspended.trace, out_direct.trace);
    assert_eq!(out_suspended.result, TaskResult::Completed(10));
    assert_eq!(out_suspended.trace, vec![9]);
}

/// Abandonment: the handler never resumes and completes with 42 of its own;
/// the captured branch (which would record 99) never executes.
#[test]
fn abandoning_handler_decides_the_run() {
    let handler = Prog::Emit(7, Box::new(Prog::Put(42, done())));
    let branch = Prog::Emit(99, done());
    let out = run(Prog::Suspend(Box::new(handler), Box::new(branch)));
    assert_eq!(out.result, TaskResult::Completed(42));
    assert_eq!(out.trace, vec![7]);
    assert!(!out.trace.contains(&99));
}

/// Nesting order: a handler that itself suspends raises its request only
/// after the first one has been installed — markers 10, 20, 30, 40 in that
/// order, and the branch of the outer suspension (50) stays abandoned.
#[test]
fn nested_suspension_is_processed_after_the_first() {
    let inner_handler = Prog::Emit(30, Box::new(Prog::Resume(7, done())));
    let inner = Prog::Suspend(Box::new(inner_handler), Box::new(Prog::Emit(40, done())));
    let outer_handler = Prog::Emit(20, Box::new(inner));
    let p = Prog::Emit(
        10,
        Box::new(Prog::Suspend(
            Box::new(outer_handler),
            Box::new(Prog::Emit(50, done())),
        )),
    );
    let out = run(p);
    assert_eq!(out.trace, vec![10, 20, 30, 40]);
    assert_eq!(out.result, TaskResult::Completed(7));
}

/// Scenario A. Markers: 1 = "foo started", 2 = "bar",
/// 3 = "foo resumed with" (probe records the value, 69). The task switches
/// to a handler that prints, resumes with 69, sees the branch complete with
/// -1, and finishes with 420.
#[test]
fn switch_and_resume_yields_handler_result() {
    let after_branch = Prog::Probe(Box::new(Prog::Put(420, done())));
    let bar = Prog::Emit(2, Box::new(Prog::Resume(69, Box::new(after_branch))));
    let foo_rest = Prog::Emit(
        3,
        Box::new(Prog::Probe(Box::new(Prog::Put(-1, done())))),
    );
    let foo = Prog::Emit(1, Box::new(Prog::Suspend(Box::new(bar), Box::new(foo_rest))));
    let out = run(foo);
    assert_eq!(out.result, TaskResult::Completed(420));
    assert_eq!(out.trace, vec![1, 2, 3, 69, -1]);
}

/// Scenario B: suspend on an immediately-resuming handler, then add 2 to
/// the delivered 1. The whole computation makes 3.
#[test]
fn resume_one_plus_two_is_three() {
    let p = Prog::Suspend(
        Box::new(Prog::Resume(1, done())),
        Box::new(Prog::Inc(2, done())),
    );
    let out = run(p);
    assert_eq!(out.result, TaskResult::Completed(3));
}

/// Scenario C: summing the elements 1, 2, 3, with a handler that, on the
/// even element, returns the error value -100 without resuming. The run
/// ends in that error value and the elements after the abandonment point
/// are never folded into the sum (their markers never appear).
#[test]
fn abandoning_on_even_element_skips_the_rest() {
    let error_handler = Prog::Put(-100, done());
    let rest = Prog::Inc(
        2,
        Box::new(Prog::Emit(
            2,
            Box::new(Prog::Inc(3, Box::new(Prog::Emit(3, done())))),
        )),
    );
    // fold 1, then hit the even element 2 and suspend on the error handler
    let p = Prog::Inc(
        1,
        Box::new(Prog::Emit(
            1,
            Box::new(Prog::Suspend(Box::new(error_handler), Box::new(rest))),
        )),
    );
    let out = run(p);
    assert_eq!(out.result, TaskResult::Completed(-100));
    assert_eq!(out.trace, vec![1]);
}

/// The begin/before/end/after pattern: a handler that records a marker,
/// resumes, and records another once the resumed branch has completed.
#[test]
fn resumed_branch_runs_between_handler_halves() {
    let handler = Prog::Emit(2, Box::new(Prog::Resume(0, Box::new(Prog::Emit(4, done())))));
    let p = Prog::Emit(
        1,
        Box::new(Prog::Suspend(Box::new(handler), Box::new(Prog::Emit(3, done())))),
    );
    let out = run(p);
    assert_eq!(out.trace, vec![1, 2, 3, 4]);
    assert_eq!(out.result, TaskResult::Completed(0));
}

/// Resume transparency holds even when the captured continuation itself
/// suspends again: the spent slot the first suspension leaves behind never
/// matters.
#[test]
fn transparency_with_suspending_continuation() {
    let k = || {
        Box::new(Prog::Inc(
            2,
            Box::new(Prog::Suspend(
                Box::new(Prog::Resume(10, done())),
                Box::new(Prog::Probe(done())),
            )),
        ))
    };
    let suspended = Prog::Suspend(Box::new(Prog::Resume(1, done())), k());
    let direct = Prog::Put(1, k());
    let a = run(suspended);
    let b = run(direct);
    assert_eq!(a.result, b.result);
    assert_eq!(a.trace, b.trace);
    assert_eq!(a.result, TaskResult::Completed(10));
    assert_eq!(a.trace, vec![10]);
}

/// A second suspension after the first has fully resolved gets a fresh
/// capability: both resumes deliver, neither faults.
#[test]
fn sequential_suspensions_each_resume_once() {
    let second = Prog::Suspend(
        Box::new(Prog::Resume(3, done())),
        Box::new(Prog::Inc(10, done())),
    );
    let first = Prog::Suspend(Box::new(Prog::Resume(1, done())), Box::new(second));
    let out = run(first);
    // first resume delivers 1 (discarded by the second suspension's
    // delivery of 3), then 3 + 10
    assert_eq!(out.result, TaskResult::Completed(13));
    assert_ne!(out.result, TaskResult::Faulted(Fault::SpentCapability));
}
