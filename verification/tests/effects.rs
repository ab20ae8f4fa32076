//! Effect handlers built on suspensions, as the effect layer spells them:
//! a log effect records a marker and resumes at once; a cancel effect
//! abandons the rest of the task and completes with its value.

use switch_resume::effects::{cancel, log};
use switch_resume::{run, run_effects, Prog, TaskResult};

fn done() -> Box<Prog> {
    Box::new(Prog::Done)
}

/// Markers: 1 = "hello", 2 = "world", 3 = "this will never be logged".
/// The task logs twice, cancels with 4, and its tail (which would log 3 and
/// complete with 10) never runs.
#[test]
fn cancel_effect_stops_the_task() {
    let tail = log(3, Prog::Put(10, done()));
    let p = log(1, log(2, cancel(4, tail)));
    let out = run(p);
    assert_eq!(out.result, TaskResult::Completed(4));
    assert_eq!(out.trace, vec![1, 2]);
}

#[test]
fn log_effect_records_then_resumes() {
    let p = log(5, Prog::Inc(8, done()));
    let out = run(p);
    assert_eq!(out.result, TaskResult::Completed(8));
    assert_eq!(out.trace, vec![5]);
}

#[test]
fn run_effects_agrees_with_run() {
    let build = || log(1, cancel(-3, Prog::Put(100, done())));
    assert_eq!(run_effects(build()), run(build()).result);
    assert_eq!(run_effects(build()), TaskResult::Completed(-3));
}

#[test]
fn uncancelled_task_completes_on_its_own() {
    let p = log(1, log(2, Prog::Put(10, done())));
    let out = run(p);
    assert_eq!(out.result, TaskResult::Completed(10));
    assert_eq!(out.trace, vec![1, 2]);
}
