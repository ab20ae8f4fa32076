//! The engine's governing properties, stated and proved.
//!
//! Direct execution of a computation that never suspends is defined here
//! ([`plain_value`], [`plain_marks`]), and the laws relate the machine of
//! [`crate::semantics`] to it: suspension-free runs are direct execution;
//! an immediately-resuming handler is transparent; an abandoning handler
//! alone decides the run; a nested suspension is processed strictly after
//! the enclosing one has resolved; and a second use of a resume capability
//! faults the run instead of delivering twice. [`crate::engine::run`]'s
//! contract carries every law over to the executable engine.

use vstd::prelude::*;
use crate::prog::{Prog, spliced, bound, lemma_spliced_done};
use crate::semantics::{Cfg, Fault, TaskResult, Outcome, Step, step, run_from, init_cfg, measure, lemma_step_measure};

verus! {

/// A computation that never suspends: only plain instructions stand on its
/// spine, so it neither raises a suspension request nor touches any resume
/// capability.
pub open spec fn plain(p: Prog) -> bool
    decreases p,
{
    match p {
        Prog::Done => true,
        Prog::Emit(_, r) => plain(*r),
        Prog::Probe(r) => plain(*r),
        Prog::Inc(_, r) => plain(*r),
        Prog::Put(_, r) => plain(*r),
        Prog::Suspend(_, _) => false,
        Prog::Resume(_, _) => false,
        Prog::ResumeTo(_, _, _) => false,
    }
}

/// Direct execution of a suspension-free computation from accumulator `a`:
/// the value it completes with.
pub open spec fn plain_value(p: Prog, a: i64) -> i64
    decreases p,
{
    match p {
        Prog::Done => a,
        Prog::Emit(_, r) => plain_value(*r, a),
        Prog::Probe(r) => plain_value(*r, a),
        Prog::Inc(k, r) => plain_value(*r, a.wrapping_add(k)),
        Prog::Put(k, r) => plain_value(*r, k),
        Prog::Suspend(_, _) => a,
        Prog::Resume(_, _) => a,
        Prog::ResumeTo(_, _, _) => a,
    }
}

/// Direct execution of a suspension-free computation from accumulator `a`:
/// the markers it records, in order.
pub open spec fn plain_marks(p: Prog, a: i64) -> Seq<i64>
    decreases p,
{
    match p {
        Prog::Done => Seq::empty(),
        Prog::Emit(m, r) => seq![m] + plain_marks(*r, a),
        Prog::Probe(r) => seq![a] + plain_marks(*r, a),
        Prog::Inc(k, r) => plain_marks(*r, a.wrapping_add(k)),
        Prog::Put(k, r) => plain_marks(*r, k),
        Prog::Suspend(_, _) => Seq::empty(),
        Prog::Resume(_, _) => Seq::empty(),
        Prog::ResumeTo(_, _, _) => Seq::empty(),
    }
}

/// Binding touches only resumes, so a suspension-free computation is its own
/// bound form.
pub proof fn lemma_bound_plain(p: Prog, n: usize)
    requires
        plain(p),
    ensures
        bound(p, n) == p,
    decreases p,
{
    match p {
        Prog::Done => {}
        Prog::Emit(_, r) => lemma_bound_plain(*r, n),
        Prog::Probe(r) => lemma_bound_plain(*r, n),
        Prog::Inc(_, r) => lemma_bound_plain(*r, n),
        Prog::Put(_, r) => lemma_bound_plain(*r, n),
        Prog::Suspend(_, _) => {}
        Prog::Resume(_, _) => {}
        Prog::ResumeTo(_, _, _) => {}
    }
}

/// Running a suspension-free prefix: the machine carries its direct value
/// and markers into whatever follows, and touches nothing else.
pub proof fn lemma_plain_prefix(a: Prog, b: Prog, c: Cfg)
    requires
        plain(a),
        c.prog == spliced(a, b),
    ensures
        run_from(c) == run_from(
            (Cfg {
                prog: b,
                acc: plain_value(a, c.acc),
                held: c.held,
                trace: c.trace + plain_marks(a, c.acc),
            }),
        ),
    decreases a,
{
    match a {
        Prog::Done => {
            assert(c.trace + plain_marks(a, c.acc) =~= c.trace);
            assert((Cfg {
                prog: b,
                acc: plain_value(a, c.acc),
                held: c.held,
                trace: c.trace + plain_marks(a, c.acc),
            }) == c);
        }
        Prog::Emit(m, r) => {
            let c1 = Cfg { prog: spliced(*r, b), trace: c.trace.push(m), ..c };
            assert(step(c) == Step::Next(c1));
            lemma_plain_prefix(*r, b, c1);
            assert(c.trace.push(m) + plain_marks(*r, c.acc) =~= c.trace + (seq![m]
                + plain_marks(*r, c.acc)));
        }
        Prog::Probe(r) => {
            let c1 = Cfg { prog: spliced(*r, b), trace: c.trace.push(c.acc), ..c };
            assert(step(c) == Step::Next(c1));
            lemma_plain_prefix(*r, b, c1);
            assert(c.trace.push(c.acc) + plain_marks(*r, c.acc) =~= c.trace + (seq![c.acc]
                + plain_marks(*r, c.acc)));
        }
        Prog::Inc(k, r) => {
            let c1 = Cfg { prog: spliced(*r, b), acc: c.acc.wrapping_add(k), ..c };
            assert(step(c) == Step::Next(c1));
            lemma_plain_prefix(*r, b, c1);
        }
        Prog::Put(k, r) => {
            let c1 = Cfg { prog: spliced(*r, b), acc: k, ..c };
            assert(step(c) == Step::Next(c1));
            lemma_plain_prefix(*r, b, c1);
        }
        Prog::Suspend(_, _) => {}
        Prog::Resume(_, _) => {}
        Prog::ResumeTo(_, _, _) => {}
    }
}

/// Running a whole suspension-free computation is direct execution.
pub proof fn lemma_plain_run(p: Prog, c: Cfg)
    requires
        plain(p),
        c.prog == p,
    ensures
        run_from(c) == (Outcome {
            result: TaskResult::Completed(plain_value(p, c.acc)),
            trace: c.trace + plain_marks(p, c.acc),
        }),
{
    lemma_spliced_done(p);
    lemma_plain_prefix(p, Prog::Done, c);
}

/// A computation that never suspends runs to exactly what direct execution
/// of it produces: the same final value, the same markers, no fault.
pub proof fn law_direct_execution(p: Prog)
    requires
        plain(p),
    ensures
        run_from(init_cfg(p)) == (Outcome {
            result: TaskResult::Completed(plain_value(p, 0)),
            trace: plain_marks(p, 0),
        }),
{
    lemma_plain_run(p, init_cfg(p));
    assert(Seq::<i64>::empty() + plain_marks(p, 0) =~= plain_marks(p, 0));
}

/// Resume transparency: a handler that invokes its resume capability at once
/// with `v` and returns the resulting continuation unmodified changes
/// nothing but the spent one-shot slot — the run continues exactly as the
/// captured continuation does from value `v`.
pub proof fn law_resume_transparency(c: Cfg, v: i64, k: Prog)
    requires
        c.prog == Prog::Suspend(
            Box::new(Prog::Resume(v, Box::new(Prog::Done))),
            Box::new(k),
        ),
        c.held.len() <= usize::MAX,
    ensures
        run_from(c) == run_from(
            (Cfg { prog: k, acc: v, held: c.held.push(None), trace: c.trace }),
        ),
{
    reveal_with_fuel(bound, 2);
    let n = c.held.len() as usize;
    let c1 = Cfg {
        prog: Prog::ResumeTo(n, v, Box::new(Prog::Done)),
        held: c.held.push(Some(k)),
        ..c
    };
    assert(step(c) == Step::Next(c1));
    lemma_spliced_done(k);
    let c2 = Cfg { prog: k, acc: v, held: c1.held.update(n as int, None), trace: c.trace };
    assert(step(c1) == Step::Next(c2));
    assert(run_from(c) == run_from(c1));
    assert(run_from(c1) == run_from(c2));
    assert(c1.held.update(n as int, None) =~= c.held.push(None));
    assert(c2 == (Cfg { prog: k, acc: v, held: c.held.push(None), trace: c.trace }));
}

/// Resume transparency as the identity law: when the captured continuation
/// never itself suspends, suspending on an immediately-resuming handler is
/// the same computation as never suspending and taking `v` straight.
pub proof fn law_resume_identity(c: Cfg, v: i64, k: Prog)
    requires
        c.prog == Prog::Suspend(
            Box::new(Prog::Resume(v, Box::new(Prog::Done))),
            Box::new(k),
        ),
        c.held.len() <= usize::MAX,
        plain(k),
    ensures
        run_from(c) == run_from((Cfg { prog: Prog::Put(v, Box::new(k)), ..c })),
{
    law_resume_transparency(c, v, k);
    lemma_plain_run(k, Cfg { prog: k, acc: v, held: c.held.push(None), trace: c.trace });
    let cr = Cfg { prog: Prog::Put(v, Box::new(k)), ..c };
    let cr1 = Cfg { prog: k, acc: v, ..c };
    assert(step(cr) == Step::Next(cr1));
    lemma_plain_run(k, cr1);
}

/// Abandonment: a handler that never invokes its resume capability and
/// completes with a value of its own alone decides the run. The captured
/// continuation never executes: not one of its markers enters the trace, and
/// the run completes with the handler's value.
pub proof fn law_abandonment(c: Cfg, h: Prog, k: Prog)
    requires
        c.prog == Prog::Suspend(Box::new(h), Box::new(k)),
        plain(h),
    ensures
        run_from(c) == (Outcome {
            result: TaskResult::Completed(plain_value(h, c.acc)),
            trace: c.trace + plain_marks(h, c.acc),
        }),
{
    let n = c.held.len() as usize;
    lemma_bound_plain(h, n);
    let c1 = Cfg { prog: bound(h, n), held: c.held.push(Some(k)), ..c };
    assert(step(c) == Step::Next(c1));
    lemma_plain_run(h, c1);
}

/// Nesting order: a handler that itself suspends raises its request only
/// after the first one has resolved — the machine first installs the outer
/// handler bound to slot `n`, and only from there, one step later, installs
/// the inner one bound to the strictly later slot `n + 1`.
pub proof fn law_nested_suspension(c: Cfg, h2: Prog, k2: Prog, k: Prog)
    requires
        c.prog == Prog::Suspend(
            Box::new(Prog::Suspend(Box::new(h2), Box::new(k2))),
            Box::new(k),
        ),
    ensures
        run_from(c) == run_from(
            (Cfg {
                prog: Prog::Suspend(
                    Box::new(h2),
                    Box::new(bound(k2, c.held.len() as usize)),
                ),
                acc: c.acc,
                held: c.held.push(Some(k)),
                trace: c.trace,
            }),
        ),
        run_from(c) == run_from(
            (Cfg {
                prog: bound(h2, (c.held.len() + 1) as usize),
                acc: c.acc,
                held: c.held.push(Some(k)).push(Some(bound(k2, c.held.len() as usize))),
                trace: c.trace,
            }),
        ),
{
    let n1 = c.held.len() as usize;
    let c1 = Cfg {
        prog: Prog::Suspend(Box::new(h2), Box::new(bound(k2, n1))),
        held: c.held.push(Some(k)),
        ..c
    };
    assert(step(c) == Step::Next(c1));
    let n2 = c1.held.len() as usize;
    let c2 = Cfg {
        prog: bound(h2, n2),
        held: c1.held.push(Some(bound(k2, n1))),
        ..c1
    };
    assert(step(c1) == Step::Next(c2));
}

/// `m`, taken as a bound slot index, with indices at or above `j` pushed up
/// by one. Indices at the machine's ceiling stay put: they name no slot the
/// engine can ever create, on either side of the renaming.
pub open spec fn lift_id(m: usize, j: usize) -> usize {
    if j <= m && m < usize::MAX {
        (m + 1) as usize
    } else {
        m
    }
}

/// `p` with every bound slot index at or above `j` pushed up by one,
/// everywhere — spine and handler bodies alike.
pub open spec fn lifted(p: Prog, j: usize) -> Prog
    decreases p,
{
    match p {
        Prog::Done => Prog::Done,
        Prog::Emit(m, r) => Prog::Emit(m, Box::new(lifted(*r, j))),
        Prog::Probe(r) => Prog::Probe(Box::new(lifted(*r, j))),
        Prog::Inc(k, r) => Prog::Inc(k, Box::new(lifted(*r, j))),
        Prog::Put(k, r) => Prog::Put(k, Box::new(lifted(*r, j))),
        Prog::Suspend(h, r) => Prog::Suspend(Box::new(lifted(*h, j)), Box::new(lifted(*r, j))),
        Prog::Resume(v, r) => Prog::Resume(v, Box::new(lifted(*r, j))),
        Prog::ResumeTo(m, v, r) => Prog::ResumeTo(lift_id(m, j), v, Box::new(lifted(*r, j))),
    }
}

/// The same renaming on the contents of a transfer slot.
pub open spec fn slot_lifted(s: Option<Prog>, j: usize) -> Option<Prog> {
    match s {
        Some(k) => Some(lifted(k, j)),
        None => None,
    }
}

/// Every bound slot index in `p` lies below `n`: `p` names no slot the
/// machine has not created yet. Every computation the engine itself builds
/// satisfies this; a source computation, which has no bound resumes at all,
/// satisfies it trivially.
pub open spec fn ids_below(p: Prog, n: nat) -> bool
    decreases p,
{
    match p {
        Prog::Done => true,
        Prog::Emit(_, r) => ids_below(*r, n),
        Prog::Probe(r) => ids_below(*r, n),
        Prog::Inc(_, r) => ids_below(*r, n),
        Prog::Put(_, r) => ids_below(*r, n),
        Prog::Suspend(h, r) => ids_below(*h, n) && ids_below(*r, n),
        Prog::Resume(_, r) => ids_below(*r, n),
        Prog::ResumeTo(m, _, r) => (m as nat) < n && ids_below(*r, n),
    }
}

/// A renaming that only touches indices `p` does not hold is no renaming.
pub proof fn lemma_lifted_identity(p: Prog, j: usize)
    requires
        ids_below(p, j as nat),
    ensures
        lifted(p, j) == p,
    decreases p,
{
    match p {
        Prog::Done => {}
        Prog::Emit(_, r) => lemma_lifted_identity(*r, j),
        Prog::Probe(r) => lemma_lifted_identity(*r, j),
        Prog::Inc(_, r) => lemma_lifted_identity(*r, j),
        Prog::Put(_, r) => lemma_lifted_identity(*r, j),
        Prog::Suspend(h, r) => {
            lemma_lifted_identity(*h, j);
            lemma_lifted_identity(*r, j);
        }
        Prog::Resume(_, r) => lemma_lifted_identity(*r, j),
        Prog::ResumeTo(_, _, r) => lemma_lifted_identity(*r, j),
    }
}

/// Renaming commutes with binding a handler body: binding after the
/// renaming binds to the pushed-up slot.
pub proof fn lemma_lifted_bound(h: Prog, n: usize, j: usize)
    requires
        j <= n,
        n < usize::MAX,
    ensures
        lifted(bound(h, n), j) == bound(lifted(h, j), (n + 1) as usize),
    decreases h,
{
    match h {
        Prog::Done => {}
        Prog::Emit(_, r) => lemma_lifted_bound(*r, n, j),
        Prog::Probe(r) => lemma_lifted_bound(*r, n, j),
        Prog::Inc(_, r) => lemma_lifted_bound(*r, n, j),
        Prog::Put(_, r) => lemma_lifted_bound(*r, n, j),
        Prog::Suspend(_, r) => lemma_lifted_bound(*r, n, j),
        Prog::Resume(_, r) => lemma_lifted_bound(*r, n, j),
        Prog::ResumeTo(_, _, r) => lemma_lifted_bound(*r, n, j),
    }
}

/// Renaming commutes with splicing.
pub proof fn lemma_lifted_spliced(a: Prog, b: Prog, j: usize)
    ensures
        lifted(spliced(a, b), j) == spliced(lifted(a, j), lifted(b, j)),
    decreases a,
{
    match a {
        Prog::Done => {}
        Prog::Emit(_, r) => lemma_lifted_spliced(*r, b, j),
        Prog::Probe(r) => lemma_lifted_spliced(*r, b, j),
        Prog::Inc(_, r) => lemma_lifted_spliced(*r, b, j),
        Prog::Put(_, r) => lemma_lifted_spliced(*r, b, j),
        Prog::Suspend(_, r) => lemma_lifted_spliced(*r, b, j),
        Prog::Resume(_, r) => lemma_lifted_spliced(*r, b, j),
        Prog::ResumeTo(_, _, r) => lemma_lifted_spliced(*r, b, j),
    }
}

/// Single-resume enforcement: a handler that invokes its resume capability a
/// second time faults the run with `SpentCapability` — never a silent second
/// delivery. Stated for a captured continuation that itself runs without
/// suspending, so the second invocation is reached.
pub proof fn law_single_resume(c: Cfg, v1: i64, v2: i64, rest: Prog, k: Prog)
    requires
        c.prog == Prog::Suspend(
            Box::new(Prog::Resume(v1, Box::new(Prog::Resume(v2, Box::new(rest))))),
            Box::new(k),
        ),
        c.held.len() <= usize::MAX,
        plain(k),
    ensures
        run_from(c) == (Outcome {
            result: TaskResult::Faulted(Fault::SpentCapability),
            trace: c.trace + plain_marks(k, v1),
        }),
{
    reveal_with_fuel(bound, 2);
    let n = c.held.len() as usize;
    let tail = Prog::ResumeTo(n, v2, Box::new(bound(rest, n)));
    let c1 = Cfg {
        prog: Prog::ResumeTo(n, v1, Box::new(tail)),
        held: c.held.push(Some(k)),
        ..c
    };
    assert(step(c) == Step::Next(c1));
    let c2 = Cfg {
        prog: spliced(k, tail),
        acc: v1,
        held: c1.held.update(n as int, None),
        trace: c.trace,
    };
    assert(step(c1) == Step::Next(c2));
    assert(run_from(c) == run_from(c1));
    assert(run_from(c1) == run_from(c2));
    lemma_plain_prefix(k, tail, c2);
    let c3 = Cfg {
        prog: tail,
        acc: plain_value(k, v1),
        held: c2.held,
        trace: c2.trace + plain_marks(k, v1),
    };
    assert(run_from(c2) == run_from(c3));
    assert(c2.held[n as int] is None);
    assert(step(c3) == Step::Stop(TaskResult::Faulted(Fault::SpentCapability)));
    assert(run_from(c3).result == TaskResult::Faulted(Fault::SpentCapability));
}

/// `c2` is `c1` with one spent transfer slot squeezed in at position `j`:
/// the slots below `j` agree, the slots from `j` on sit one position later,
/// and every bound index from `j` on is pushed up by one to match. The
/// headroom conjunct keeps every slot index the run can still bind exact on
/// the machine: the table can grow by at most one slot per remaining
/// instruction.
pub open spec fn padded(c1: Cfg, c2: Cfg, j: usize) -> bool {
    &&& j <= c1.held.len()
    &&& c1.held.len() + measure(c1) < usize::MAX
    &&& c2.acc == c1.acc
    &&& c2.trace == c1.trace
    &&& c2.prog == lifted(c1.prog, j)
    &&& c2.held.len() == c1.held.len() + 1
    &&& c2.held[j as int] is None
    &&& forall|i: int| 0 <= i < j ==> c2.held[i] == slot_lifted(c1.held[i], j)
    &&& forall|i: int|
        j <= i < c1.held.len() ==> c2.held[i + 1] == slot_lifted(c1.held[i], j)
}

/// A spent transfer slot changes nothing: two configurations that differ
/// only by one never-deliverable slot (and the renaming that makes room for
/// it) run to the same outcome, step for step.
pub proof fn lemma_padded_runs_equal(c1: Cfg, c2: Cfg, j: usize)
    requires
        padded(c1, c2, j),
    ensures
        run_from(c1) == run_from(c2),
    decreases measure(c1),
{
    lemma_step_measure(c1);
    match c1.prog {
        Prog::Done => {
            assert(step(c1) == Step::Stop(TaskResult::Completed(c1.acc)));
            assert(step(c2) == Step::Stop(TaskResult::Completed(c1.acc)));
        }
        Prog::Emit(m, r) => {
            let d1 = Cfg { prog: *r, trace: c1.trace.push(m), ..c1 };
            let d2 = Cfg { prog: lifted(*r, j), trace: c2.trace.push(m), ..c2 };
            assert(step(c1) == Step::Next(d1));
            assert(step(c2) == Step::Next(d2));
            lemma_padded_runs_equal(d1, d2, j);
        }
        Prog::Probe(r) => {
            let d1 = Cfg { prog: *r, trace: c1.trace.push(c1.acc), ..c1 };
            let d2 = Cfg { prog: lifted(*r, j), trace: c2.trace.push(c1.acc), ..c2 };
            assert(step(c1) == Step::Next(d1));
            assert(step(c2) == Step::Next(d2));
            lemma_padded_runs_equal(d1, d2, j);
        }
        Prog::Inc(k, r) => {
            let d1 = Cfg { prog: *r, acc: c1.acc.wrapping_add(k), ..c1 };
            let d2 = Cfg { prog: lifted(*r, j), acc: c1.acc.wrapping_add(k), ..c2 };
            assert(step(c1) == Step::Next(d1));
            assert(step(c2) == Step::Next(d2));
            lemma_padded_runs_equal(d1, d2, j);
        }
        Prog::Put(k, r) => {
            let d1 = Cfg { prog: *r, acc: k, ..c1 };
            let d2 = Cfg { prog: lifted(*r, j), acc: k, ..c2 };
            assert(step(c1) == Step::Next(d1));
            assert(step(c2) == Step::Next(d2));
            lemma_padded_runs_equal(d1, d2, j);
        }
        Prog::Suspend(h, k) => {
            let n1 = c1.held.len() as usize;
            let n2 = c2.held.len() as usize;
            let d1 = Cfg { prog: bound(*h, n1), held: c1.held.push(Some(*k)), ..c1 };
            let d2 = Cfg {
                prog: bound(lifted(*h, j), n2),
                held: c2.held.push(Some(lifted(*k, j))),
                ..c2
            };
            assert(step(c1) == Step::Next(d1));
            assert(step(c2) == Step::Next(d2));
            lemma_lifted_bound(*h, n1, j);
            assert(d2.prog == lifted(d1.prog, j));
            assert(d2.held[j as int] is None);
            assert(forall|i: int| 0 <= i < j ==> d2.held[i] == slot_lifted(d1.held[i], j));
            assert(forall|i: int|
                j <= i < d1.held.len() ==> d2.held[i + 1] == slot_lifted(d1.held[i], j));
            lemma_padded_runs_equal(d1, d2, j);
        }
        Prog::Resume(_, _) => {
            assert(step(c1) == Step::Stop(TaskResult::Faulted(Fault::StrayResume)));
            assert(step(c2) == Step::Stop(TaskResult::Faulted(Fault::StrayResume)));
        }
        Prog::ResumeTo(m, v, r) => {
            if m < c1.held.len() && c1.held[m as int] is Some {
                let k1 = c1.held[m as int]->Some_0;
                let m2 = lift_id(m, j);
                assert(c2.held[m2 as int] == slot_lifted(c1.held[m as int], j));
                let d1 = Cfg {
                    prog: spliced(k1, *r),
                    acc: v,
                    held: c1.held.update(m as int, None),
                    trace: c1.trace,
                };
                let d2 = Cfg {
                    prog: spliced(lifted(k1, j), lifted(*r, j)),
                    acc: v,
                    held: c2.held.update(m2 as int, None),
                    trace: c2.trace,
                };
                assert(step(c1) == Step::Next(d1));
                assert(step(c2) == Step::Next(d2));
                lemma_lifted_spliced(k1, *r, j);
                assert(d2.prog == lifted(d1.prog, j));
                assert(d2.held[j as int] is None);
                assert(forall|i: int| 0 <= i < j ==> d2.held[i] == slot_lifted(d1.held[i], j));
                assert(forall|i: int|
                    j <= i < d1.held.len() ==> d2.held[i + 1] == slot_lifted(d1.held[i], j));
                lemma_padded_runs_equal(d1, d2, j);
            } else {
                let m2 = lift_id(m, j);
                if m < c1.held.len() {
                    assert(c2.held[m2 as int] == slot_lifted(c1.held[m as int], j));
                }
                assert(step(c1) == Step::Stop(TaskResult::Faulted(Fault::SpentCapability)));
                assert(step(c2) == Step::Stop(TaskResult::Faulted(Fault::SpentCapability)));
            }
        }
    }
}

/// A valid configuration: no computation in it — current or held — names a
/// slot the machine has not created. Every configuration the engine itself
/// reaches is of this kind; an initial configuration of a source
/// computation is trivially.
pub open spec fn ids_ok(c: Cfg) -> bool {
    &&& ids_below(c.prog, c.held.len())
    &&& forall|i: int|
        0 <= i < c.held.len() && c.held[i] is Some ==> ids_below(
            #[trigger] c.held[i]->Some_0,
            c.held.len(),
        )
}

/// A bound in range stays in range when the table grows.
pub proof fn lemma_ids_below_mono(p: Prog, m1: nat, m2: nat)
    requires
        ids_below(p, m1),
        m1 <= m2,
    ensures
        ids_below(p, m2),
    decreases p,
{
    match p {
        Prog::Done => {}
        Prog::Emit(_, r) => lemma_ids_below_mono(*r, m1, m2),
        Prog::Probe(r) => lemma_ids_below_mono(*r, m1, m2),
        Prog::Inc(_, r) => lemma_ids_below_mono(*r, m1, m2),
        Prog::Put(_, r) => lemma_ids_below_mono(*r, m1, m2),
        Prog::Suspend(h, r) => {
            lemma_ids_below_mono(*h, m1, m2);
            lemma_ids_below_mono(*r, m1, m2);
        }
        Prog::Resume(_, r) => lemma_ids_below_mono(*r, m1, m2),
        Prog::ResumeTo(_, _, r) => lemma_ids_below_mono(*r, m1, m2),
    }
}

/// Binding introduces only the index it is given.
pub proof fn lemma_ids_below_bound(h: Prog, n: usize, m: nat)
    requires
        ids_below(h, m),
        (n as nat) < m,
    ensures
        ids_below(bound(h, n), m),
    decreases h,
{
    match h {
        Prog::Done => {}
        Prog::Emit(_, r) => lemma_ids_below_bound(*r, n, m),
        Prog::Probe(r) => lemma_ids_below_bound(*r, n, m),
        Prog::Inc(_, r) => lemma_ids_below_bound(*r, n, m),
        Prog::Put(_, r) => lemma_ids_below_bound(*r, n, m),
        Prog::Suspend(_, r) => lemma_ids_below_bound(*r, n, m),
        Prog::Resume(_, r) => lemma_ids_below_bound(*r, n, m),
        Prog::ResumeTo(_, _, r) => lemma_ids_below_bound(*r, n, m),
    }
}

/// Splicing introduces no index of its own.
pub proof fn lemma_ids_below_spliced(a: Prog, b: Prog, m: nat)
    requires
        ids_below(a, m),
        ids_below(b, m),
    ensures
        ids_below(spliced(a, b), m),
    decreases a,
{
    match a {
        Prog::Done => {}
        Prog::Emit(_, r) => lemma_ids_below_spliced(*r, b, m),
        Prog::Probe(r) => lemma_ids_below_spliced(*r, b, m),
        Prog::Inc(_, r) => lemma_ids_below_spliced(*r, b, m),
        Prog::Put(_, r) => lemma_ids_below_spliced(*r, b, m),
        Prog::Suspend(_, r) => lemma_ids_below_spliced(*r, b, m),
        Prog::Resume(_, r) => lemma_ids_below_spliced(*r, b, m),
        Prog::ResumeTo(_, _, r) => lemma_ids_below_spliced(*r, b, m),
    }
}

/// Validity is an invariant of the machine: no step makes a computation —
/// current or held — name a slot that does not exist. A run started on a
/// source computation (which has no bound resumes at all) stays valid
/// throughout.
pub proof fn lemma_step_preserves_ids_ok(c: Cfg)
    requires
        ids_ok(c),
        c.held.len() < usize::MAX,
    ensures
        step(c) matches Step::Next(c2) ==> ids_ok(c2),
{
    let len = c.held.len();
    match c.prog {
        Prog::Done => {}
        Prog::Emit(_, _) => {}
        Prog::Probe(_) => {}
        Prog::Inc(_, _) => {}
        Prog::Put(_, _) => {}
        Prog::Suspend(h, k) => {
            lemma_ids_below_mono(*h, len, len + 1);
            lemma_ids_below_bound(*h, len as usize, len + 1);
            assert forall|i: int|
                0 <= i < len + 1 && c.held.push(Some(*k))[i] is Some implies ids_below(
                #[trigger] c.held.push(Some(*k))[i]->Some_0,
                len + 1,
            ) by {
                lemma_ids_below_mono(c.held.push(Some(*k))[i]->Some_0, len, len + 1);
            };
        }
        Prog::Resume(_, _) => {}
        Prog::ResumeTo(n, _, r) => {
            if n < len && c.held[n as int] is Some {
                lemma_ids_below_spliced(c.held[n as int]->Some_0, *r, len);
            }
        }
    }
}

/// A fresh run of a computation with no bound resumes starts valid.
pub proof fn lemma_init_ids_ok(p: Prog)
    requires
        ids_below(p, 0),
    ensures
        ids_ok(init_cfg(p)),
{
}

/// A spent transfer slot at the end of the table — what an invoked resume
/// capability leaves behind — never changes a run.
pub proof fn law_spare_slot(c: Cfg)
    requires
        ids_ok(c),
        c.held.len() + measure(c) < usize::MAX,
    ensures
        run_from(
            (Cfg { prog: c.prog, acc: c.acc, held: c.held.push(None), trace: c.trace }),
        ) == run_from(c),
{
    let j = c.held.len() as usize;
    let c2 = Cfg { prog: c.prog, acc: c.acc, held: c.held.push(None), trace: c.trace };
    lemma_lifted_identity(c.prog, j);
    assert forall|i: int| 0 <= i < j implies c2.held[i] == slot_lifted(c.held[i], j) by {
        if c.held[i] is Some {
            lemma_lifted_identity(c.held[i]->Some_0, j);
        }
    };
    assert(padded(c, c2, j));
    lemma_padded_runs_equal(c, c2, j);
}

/// Resume transparency in full: for any captured continuation at all,
/// suspending on a handler that resumes at once with `v` and returns the
/// resulting continuation unmodified is the same computation as never
/// suspending and taking `v` straight. The spent slot the suspension leaves
/// behind can never matter.
pub proof fn law_resume_identity_general(c: Cfg, v: i64, k: Prog)
    requires
        c.prog == Prog::Suspend(
            Box::new(Prog::Resume(v, Box::new(Prog::Done))),
            Box::new(k),
        ),
        ids_below(k, c.held.len()),
        forall|i: int|
            0 <= i < c.held.len() && c.held[i] is Some ==> ids_below(
                #[trigger] c.held[i]->Some_0,
                c.held.len(),
            ),
        c.held.len() + measure(c) < usize::MAX,
    ensures
        run_from(c) == run_from((Cfg { prog: Prog::Put(v, Box::new(k)), ..c })),
{
    reveal_with_fuel(crate::prog::size, 3);
    law_resume_transparency(c, v, k);
    let b = Cfg { prog: k, acc: v, held: c.held, trace: c.trace };
    assert(ids_ok(b));
    law_spare_slot(b);
    let cr = Cfg { prog: Prog::Put(v, Box::new(k)), ..c };
    let cr1 = Cfg { prog: k, acc: v, ..c };
    assert(step(cr) == Step::Next(cr1));
    assert(cr1 == b);
}

} // verus!
