//! The shift/reset spelling: same engine, same outcomes.

use switch_resume::prog::Prog;
use switch_resume::semantics::TaskResult;
use switch_resume::shift_reset::{reset, ResetExecutor, ResetHandler, ResetHandlerImpl};
use switch_resume::run;

fn done() -> Box<Prog> {
    Box::new(Prog::Done)
}

#[test]
fn reset_of_plain_computation_is_direct() {
    let out = reset(Prog::Inc(41, Box::new(Prog::Inc(1, done()))));
    assert_eq!(out.result, TaskResult::Completed(42));
}

#[test]
fn shift_builds_the_suspension_that_reset_serves() {
    // shift(body, rest) suspends rest on body: resume 1, then add 2.
    let handler = ResetHandlerImpl {};
    let p = handler.shift(Prog::Resume(1, done()), Prog::Inc(2, done()));
    let out = reset(p);
    assert_eq!(out.result, TaskResult::Completed(3));
}

#[test]
fn reset_agrees_with_run() {
    let build = || {
        Prog::Emit(
            1,
            Box::new(Prog::Suspend(
                Box::new(Prog::Emit(2, Box::new(Prog::Resume(5, done())))),
                Box::new(Prog::Probe(done())),
            )),
        )
    };
    let a = reset(build());
    let b = run(build());
    assert_eq!(a.result, b.result);
    assert_eq!(a.trace, b.trace);
}

#[test]
fn executor_new_then_run_drives_to_completion() {
    let p = Prog::Suspend(
        Box::new(Prog::Put(11, done())),
        Box::new(Prog::Emit(99, done())),
    );
    let exec = ResetExecutor::new(p);
    let out = exec.run();
    // the handler abandons the captured branch: 99 never recorded
    assert_eq!(out.result, TaskResult::Completed(11));
    assert_eq!(out.trace, Vec::<i64>::new());
}
