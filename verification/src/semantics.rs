//! The meaning of a computation, as a small-step machine.
//!
//! A configuration pairs the sole live computation with the accumulator, the
//! table of one-shot transfer slots (one per suspension so far, each holding
//! the captured continuation until it is consumed) and the trace of recorded
//! markers. [`step`] is one machine step, [`run_from`] drives a configuration
//! to its outcome. Every contract of the executable engine is stated against
//! these two functions.

use vstd::prelude::*;
use crate::prog::{Prog, size, spliced, bound, lemma_bound_size, lemma_spliced_size};

verus! {

/// A violation of the engine's one-shot discipline. Both conditions are
/// fatal: the run stops at once, no recovery is attempted.
#[derive(PartialEq, Eq, Structural, Clone, Copy, Debug)]
pub enum Fault {
    /// A `Resume` stood outside any handler body, so it was never bound to a
    /// capability: the resume operation was used outside its owning
    /// suspension.
    StrayResume,
    /// A transfer slot was asked to deliver a second time: the resume
    /// capability of one suspension was invoked twice.
    SpentCapability,
}

/// How a run ended: the final value of a completed computation, or the fault
/// that aborted it.
#[derive(PartialEq, Eq, Structural, Clone, Copy, Debug)]
pub enum TaskResult {
    Completed(i64),
    Faulted(Fault),
}

/// A machine configuration: the current computation, the accumulator, the
/// transfer-slot table and the trace so far. `held[n]` keeps the continuation
/// captured by suspension `n` until its capability is invoked, and is `None`
/// from then on; an abandoned continuation simply stays in its slot, never
/// delivered and never run.
pub struct Cfg {
    pub prog: Prog,
    pub acc: i64,
    pub held: Seq<Option<Prog>>,
    pub trace: Seq<i64>,
}

/// What one machine step yields: a successor configuration, or the end of
/// the run.
pub enum Step {
    Next(Cfg),
    Stop(TaskResult),
}

/// The configuration a fresh run of `p` starts from.
pub open spec fn init_cfg(p: Prog) -> Cfg {
    Cfg { prog: p, acc: 0, held: Seq::empty(), trace: Seq::empty() }
}

/// One step of the machine.
///
/// - Plain instructions advance the computation and update accumulator or
///   trace.
/// - `Suspend(h, k)` is one whole engine cycle: the continuation `k` moves
///   into a fresh transfer slot, and the handler body, bound to that slot's
///   capability, becomes the current computation.
/// - `ResumeTo(n, v, r)` consumes slot `n`: the accumulator becomes `v`, the
///   captured continuation runs, and `r` follows once it has completed. A
///   slot that is spent (or never existed) faults the run.
/// - A `Resume` never bound by the driver faults the run.
pub open spec fn step(c: Cfg) -> Step {
    match c.prog {
        Prog::Done => Step::Stop(TaskResult::Completed(c.acc)),
        Prog::Emit(m, r) => Step::Next(Cfg { prog: *r, trace: c.trace.push(m), ..c }),
        Prog::Probe(r) => Step::Next(Cfg { prog: *r, trace: c.trace.push(c.acc), ..c }),
        Prog::Inc(k, r) => Step::Next(Cfg { prog: *r, acc: c.acc.wrapping_add(k), ..c }),
        Prog::Put(k, r) => Step::Next(Cfg { prog: *r, acc: k, ..c }),
        Prog::Suspend(h, k) => Step::Next(
            Cfg {
                prog: bound(*h, c.held.len() as usize),
                held: c.held.push(Some(*k)),
                ..c
            },
        ),
        Prog::Resume(_, _) => Step::Stop(TaskResult::Faulted(Fault::StrayResume)),
        Prog::ResumeTo(n, v, r) => {
            if n < c.held.len() && c.held[n as int] is Some {
                Step::Next(
                    Cfg {
                        prog: spliced(c.held[n as int]->Some_0, *r),
                        acc: v,
                        held: c.held.update(n as int, None),
                        ..c
                    },
                )
            } else {
                Step::Stop(TaskResult::Faulted(Fault::SpentCapability))
            }
        },
    }
}

/// The instructions still reachable inside a transfer slot.
pub open spec fn slot_size(s: Option<Prog>) -> nat {
    match s {
        Some(k) => size(k),
        None => 0,
    }
}

/// The instructions still reachable through the whole slot table.
pub open spec fn held_size(held: Seq<Option<Prog>>) -> nat
    decreases held.len(),
{
    if held.len() == 0 {
        0
    } else {
        held_size(held.drop_last()) + slot_size(held.last())
    }
}

/// Every instruction the machine can still execute from `c`. Each step
/// strictly consumes it, so every run ends.
pub open spec fn measure(c: Cfg) -> nat {
    size(c.prog) + held_size(c.held)
}

pub proof fn lemma_held_size_push(held: Seq<Option<Prog>>, s: Option<Prog>)
    ensures
        held_size(held.push(s)) == held_size(held) + slot_size(s),
{
    assert(held.push(s).drop_last() =~= held);
    assert(held.push(s).last() == s);
}

pub proof fn lemma_held_size_update(held: Seq<Option<Prog>>, n: int, s: Option<Prog>)
    requires
        0 <= n < held.len(),
    ensures
        held_size(held.update(n, s)) + slot_size(held[n]) == held_size(held) + slot_size(s),
    decreases held.len(),
{
    if n == held.len() - 1 {
        assert(held.update(n, s).drop_last() =~= held.drop_last());
        assert(held.update(n, s).last() == s);
        assert(held.last() == held[n]);
    } else {
        assert(held.update(n, s).drop_last() =~= held.drop_last().update(n, s));
        assert(held.update(n, s).last() == held.last());
        assert(held.drop_last()[n] == held[n]);
        lemma_held_size_update(held.drop_last(), n, s);
    }
}

/// Each machine step strictly decreases the measure.
pub proof fn lemma_step_measure(c: Cfg)
    ensures
        step(c) matches Step::Next(c2) ==> measure(c2) < measure(c),
{
    match c.prog {
        Prog::Done => {}
        Prog::Emit(_, _) => {}
        Prog::Probe(_) => {}
        Prog::Inc(_, _) => {}
        Prog::Put(_, _) => {}
        Prog::Suspend(h, k) => {
            lemma_bound_size(*h, c.held.len() as usize);
            lemma_held_size_push(c.held, Some(*k));
        }
        Prog::Resume(_, _) => {}
        Prog::ResumeTo(n, v, r) => {
            if n < c.held.len() && c.held[n as int] is Some {
                lemma_spliced_size(c.held[n as int]->Some_0, *r);
                lemma_held_size_update(c.held, n as int, None);
            }
        }
    }
}

/// The outcome of a run: its result, and the full trace it recorded.
pub struct Outcome {
    pub result: TaskResult,
    pub trace: Seq<i64>,
}

/// Drive a configuration to its outcome. Total: the measure shrinks with
/// every step.
pub open spec fn run_from(c: Cfg) -> Outcome
    decreases measure(c),
    via run_from_decreases
{
    match step(c) {
        Step::Stop(result) => Outcome { result, trace: c.trace },
        Step::Next(c2) => run_from(c2),
    }
}

#[via_fn]
proof fn run_from_decreases(c: Cfg) {
    lemma_step_measure(c);
}

} // verus!
