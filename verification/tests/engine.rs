//! The engine's basic behaviour: suspension-free runs, wrapping arithmetic,
//! the two fatal conditions, and the trace.

use switch_resume::engine::{Advance, Task};
use switch_resume::{run, run_effects, Fault, Prog, TaskResult};

fn done() -> Box<Prog> {
    Box::new(Prog::Done)
}

#[test]
fn empty_computation_completes_with_zero() {
    let out = run(Prog::Done);
    assert_eq!(out.result, TaskResult::Completed(0));
    assert_eq!(out.trace, Vec::<i64>::new());
}

#[test]
fn suspend_free_run_is_direct_execution() {
    // acc: 0 -> 5 (probe records 5) -> 3 -> 2
    let p = Prog::Inc(
        5,
        Box::new(Prog::Probe(Box::new(Prog::Put(
            3,
            Box::new(Prog::Inc(-1, done())),
        )))),
    );
    let out = run(p);
    assert_eq!(out.result, TaskResult::Completed(2));
    assert_eq!(out.trace, vec![5]);
}

#[test]
fn emit_records_markers_in_order() {
    let p = Prog::Emit(
        1,
        Box::new(Prog::Emit(2, Box::new(Prog::Emit(3, done())))),
    );
    let out = run(p);
    assert_eq!(out.result, TaskResult::Completed(0));
    assert_eq!(out.trace, vec![1, 2, 3]);
}

#[test]
fn inc_wraps_around() {
    let p = Prog::Inc(i64::MAX, Box::new(Prog::Inc(1, done())));
    let out = run(p);
    assert_eq!(out.result, TaskResult::Completed(i64::MIN));
}

#[test]
fn stray_resume_faults_the_run() {
    // A resume outside any handler body was never bound to a capability.
    let p = Prog::Emit(1, Box::new(Prog::Resume(5, done())));
    let out = run(p);
    assert_eq!(out.result, TaskResult::Faulted(Fault::StrayResume));
    // What ran before the fault is still on the trace.
    assert_eq!(out.trace, vec![1]);
}

#[test]
fn engine_bound_resume_in_source_faults_the_run() {
    // `ResumeTo` is the engine's bound form; written directly into a source
    // computation it names a transfer slot that was never created.
    let p = Prog::ResumeTo(0, 5, done());
    let out = run(p);
    assert_eq!(out.result, TaskResult::Faulted(Fault::SpentCapability));
}

#[test]
fn double_resume_faults_never_delivers_twice() {
    // The handler invokes its one-shot capability twice: the first delivery
    // succeeds, the second finds the slot spent and aborts the run.
    let handler = Prog::Resume(5, Box::new(Prog::Resume(6, done())));
    let p = Prog::Suspend(Box::new(handler), Box::new(Prog::Emit(9, done())));
    let out = run(p);
    assert_eq!(out.result, TaskResult::Faulted(Fault::SpentCapability));
    // The captured branch did run once, from the first delivery.
    assert_eq!(out.trace, vec![9]);
}

#[test]
fn run_effects_returns_the_result_alone() {
    let p = Prog::Emit(4, Box::new(Prog::Put(7, done())));
    assert_eq!(run_effects(p), TaskResult::Completed(7));
}

#[test]
fn advance_completes_a_plain_task() {
    let mut t = Task::new(Prog::Inc(5, done()));
    match t.advance() {
        Advance::Complete(v) => assert_eq!(v, 5),
        _ => panic!("a suspension-free task must complete"),
    }
    assert!(t.chan.slot.is_none());
}

#[test]
fn advance_reports_suspension_through_the_channel() {
    let p = Prog::Suspend(Box::new(Prog::Put(1, done())), Box::new(Prog::Emit(9, done())));
    let mut t = Task::new(p);
    match t.advance() {
        Advance::Incomplete => {
            // the suspend protocol left the request in the capacity-one slot
            let req = t.chan.slot.as_ref().expect("a request must be pending");
            assert!(matches!(req.handler, Prog::Put(1, _)));
            assert!(matches!(req.cont, Prog::Emit(9, _)));
        }
        _ => panic!("a suspending task must report not yet complete"),
    }
}
