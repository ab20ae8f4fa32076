//! Effect handlers atop suspensions.
//!
//! The composition pattern the engine exists for: a named effect is a
//! suspension whose handler either performs its observable action and
//! invokes the resume capability at once (a log), or ignores the capability
//! and completes with a value of its own, dropping the rest of the task (a
//! cancel). The builders here produce those computations, and the lemmas
//! pin down what running them means.

use vstd::prelude::*;
use crate::prog::{Prog, bound, lemma_spliced_done};
use crate::semantics::{Cfg, TaskResult, Outcome, Step, step, run_from, init_cfg};
use crate::laws::{plain, plain_value, plain_marks, law_abandonment};
use crate::engine::run;

verus! {

/// The computation a log effect stands for: suspend on a handler that
/// records `marker` and resumes at once, delivering 0 to `rest`.
pub open spec fn log_effect(marker: i64, rest: Prog) -> Prog {
    Prog::Suspend(
        Box::new(Prog::Emit(marker, Box::new(Prog::Resume(0, Box::new(Prog::Done))))),
        Box::new(rest),
    )
}

/// The computation a cancel effect stands for: suspend on a handler that
/// never resumes and completes with `value`, dropping `rest` unrun.
pub open spec fn cancel_effect(value: i64, rest: Prog) -> Prog {
    Prog::Suspend(Box::new(Prog::Put(value, Box::new(Prog::Done))), Box::new(rest))
}

/// Perform a log effect, then go on as `rest`.
pub fn log(marker: i64, rest: Prog) -> (r: Prog)
    ensures
        r == log_effect(marker, rest),
{
    Prog::Suspend(
        Box::new(Prog::Emit(marker, Box::new(Prog::Resume(0, Box::new(Prog::Done))))),
        Box::new(rest),
    )
}

/// Cancel the task with `value`; `rest` is abandoned.
pub fn cancel(value: i64, rest: Prog) -> (r: Prog)
    ensures
        r == cancel_effect(value, rest),
{
    Prog::Suspend(Box::new(Prog::Put(value, Box::new(Prog::Done))), Box::new(rest))
}

/// A log effect records its marker and hands control straight back: the run
/// continues as `rest` from the delivered value, one spent slot and one
/// marker the only difference.
pub proof fn lemma_log_records_and_resumes(c: Cfg, marker: i64, rest: Prog)
    requires
        c.prog == log_effect(marker, rest),
        c.held.len() <= usize::MAX,
    ensures
        run_from(c) == run_from(
            (Cfg {
                prog: rest,
                acc: 0,
                held: c.held.push(None),
                trace: c.trace.push(marker),
            }),
        ),
{
    reveal_with_fuel(bound, 3);
    let n = c.held.len() as usize;
    let c1 = Cfg {
        prog: Prog::Emit(marker, Box::new(Prog::ResumeTo(n, 0, Box::new(Prog::Done)))),
        held: c.held.push(Some(rest)),
        ..c
    };
    assert(step(c) == Step::Next(c1));
    let c2 = Cfg { prog: Prog::ResumeTo(n, 0, Box::new(Prog::Done)), trace: c.trace.push(marker), ..c1 };
    assert(step(c1) == Step::Next(c2));
    lemma_spliced_done(rest);
    let c3 = Cfg { prog: rest, acc: 0, held: c2.held.update(n as int, None), trace: c2.trace };
    assert(step(c2) == Step::Next(c3));
    assert(run_from(c) == run_from(c1));
    assert(run_from(c1) == run_from(c2));
    assert(run_from(c2) == run_from(c3));
    assert(c2.held.update(n as int, None) =~= c.held.push(None));
    assert(c3 == (Cfg {
        prog: rest,
        acc: 0,
        held: c.held.push(None),
        trace: c.trace.push(marker),
    }));
}

/// A cancel effect alone decides the run: it completes with the cancel
/// value, and nothing of `rest` — work or markers — ever happens.
pub proof fn lemma_cancel_stops_the_task(c: Cfg, value: i64, rest: Prog)
    requires
        c.prog == cancel_effect(value, rest),
    ensures
        run_from(c) == (Outcome { result: TaskResult::Completed(value), trace: c.trace }),
{
    reveal_with_fuel(plain, 2);
    reveal_with_fuel(plain_value, 2);
    reveal_with_fuel(plain_marks, 2);
    let h = Prog::Put(value, Box::new(Prog::Done));
    law_abandonment(c, h, rest);
    assert(c.trace + plain_marks(h, c.acc) =~= c.trace);
}

/// Run an effectful computation and hand back only how it ended: the entry
/// point of the effect layer, the trace being an observability aid only.
pub fn run_effects(p: Prog) -> (r: TaskResult)
    ensures
        r == run_from(init_cfg(p)).result,
{
    let out = run(p);
    out.result
}

} // verus!
