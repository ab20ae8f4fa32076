//! The computation language.
//!
//! A `Prog` is an owned, suspended, resumable unit of work, written as an
//! explicit continuation-passing chain of instructions: every instruction
//! carries the rest of the computation, so "everything after this point" is
//! always a first-class value that the engine can capture, hold, splice and
//! resume. A computation works on a single `i64` accumulator and records
//! `i64` markers into an observable trace.

use vstd::prelude::*;

verus! {

/// One suspended computation: the entire remaining work of a task.
///
/// Every variant but `Done` holds the rest of the computation, so a value of
/// this type is the chain of instructions still to run. `Resume` only has
/// meaning inside a handler body (the first field of `Suspend`): when the
/// driver loop installs a handler, it binds each `Resume` on the handler's
/// spine to the capability created for that suspension, producing `ResumeTo`.
/// `ResumeTo` is that engine-bound form; source computations are written with
/// `Resume`.
pub enum Prog {
    /// Complete; the accumulator is the final value.
    Done,
    /// Record the given marker in the trace, then continue.
    Emit(i64, Box<Prog>),
    /// Record the current accumulator in the trace, then continue.
    Probe(Box<Prog>),
    /// Add the given constant to the accumulator (wrapping), then continue.
    Inc(i64, Box<Prog>),
    /// Replace the accumulator with the given constant, then continue.
    Put(i64, Box<Prog>),
    /// Capture the rest (second field) as a continuation and hand it, through
    /// the suspension channel, to the handler body (first field).
    Suspend(Box<Prog>, Box<Prog>),
    /// Inside a handler body: invoke this handler's resume capability with
    /// the given value, then, once the resumed branch has completed, continue
    /// with the branch's result in the accumulator.
    Resume(i64, Box<Prog>),
    /// A `Resume` bound by the driver loop to the capability with the given
    /// index. Produced by the engine; a source computation never contains it.
    ResumeTo(usize, i64, Box<Prog>),
}

/// The number of instructions in a computation, handler bodies included.
/// Bounds the work the engine can ever get out of it.
pub open spec fn size(p: Prog) -> nat
    decreases p,
{
    match p {
        Prog::Done => 1,
        Prog::Emit(_, r) => 1 + size(*r),
        Prog::Probe(r) => 1 + size(*r),
        Prog::Inc(_, r) => 1 + size(*r),
        Prog::Put(_, r) => 1 + size(*r),
        Prog::Suspend(h, r) => 1 + size(*h) + size(*r),
        Prog::Resume(_, r) => 1 + size(*r),
        Prog::ResumeTo(_, _, r) => 1 + size(*r),
    }
}

/// `a` with its final `Done` replaced by `b`: run `a`, then go on as `b`.
pub open spec fn spliced(a: Prog, b: Prog) -> Prog
    decreases a,
{
    match a {
        Prog::Done => b,
        Prog::Emit(m, r) => Prog::Emit(m, Box::new(spliced(*r, b))),
        Prog::Probe(r) => Prog::Probe(Box::new(spliced(*r, b))),
        Prog::Inc(k, r) => Prog::Inc(k, Box::new(spliced(*r, b))),
        Prog::Put(k, r) => Prog::Put(k, Box::new(spliced(*r, b))),
        Prog::Suspend(h, r) => Prog::Suspend(h, Box::new(spliced(*r, b))),
        Prog::Resume(v, r) => Prog::Resume(v, Box::new(spliced(*r, b))),
        Prog::ResumeTo(n, v, r) => Prog::ResumeTo(n, v, Box::new(spliced(*r, b))),
    }
}

/// `h` with every `Resume` on its spine bound to capability `n`. Bodies of
/// nested `Suspend`s are left alone: their resumes belong to the capabilities
/// of those later suspensions.
pub open spec fn bound(h: Prog, n: usize) -> Prog
    decreases h,
{
    match h {
        Prog::Done => Prog::Done,
        Prog::Emit(m, r) => Prog::Emit(m, Box::new(bound(*r, n))),
        Prog::Probe(r) => Prog::Probe(Box::new(bound(*r, n))),
        Prog::Inc(k, r) => Prog::Inc(k, Box::new(bound(*r, n))),
        Prog::Put(k, r) => Prog::Put(k, Box::new(bound(*r, n))),
        Prog::Suspend(hh, r) => Prog::Suspend(hh, Box::new(bound(*r, n))),
        Prog::Resume(v, r) => Prog::ResumeTo(n, v, Box::new(bound(*r, n))),
        Prog::ResumeTo(m, v, r) => Prog::ResumeTo(m, v, Box::new(bound(*r, n))),
    }
}

/// Splicing preserves the instruction count but for the absorbed `Done`.
pub proof fn lemma_spliced_size(a: Prog, b: Prog)
    ensures
        size(spliced(a, b)) == size(a) + size(b) - 1,
    decreases a,
{
    match a {
        Prog::Done => {}
        Prog::Emit(_, r) => lemma_spliced_size(*r, b),
        Prog::Probe(r) => lemma_spliced_size(*r, b),
        Prog::Inc(_, r) => lemma_spliced_size(*r, b),
        Prog::Put(_, r) => lemma_spliced_size(*r, b),
        Prog::Suspend(_, r) => lemma_spliced_size(*r, b),
        Prog::Resume(_, r) => lemma_spliced_size(*r, b),
        Prog::ResumeTo(_, _, r) => lemma_spliced_size(*r, b),
    }
}

/// Binding a handler body to a capability preserves its instruction count.
pub proof fn lemma_bound_size(h: Prog, n: usize)
    ensures
        size(bound(h, n)) == size(h),
    decreases h,
{
    match h {
        Prog::Done => {}
        Prog::Emit(_, r) => lemma_bound_size(*r, n),
        Prog::Probe(r) => lemma_bound_size(*r, n),
        Prog::Inc(_, r) => lemma_bound_size(*r, n),
        Prog::Put(_, r) => lemma_bound_size(*r, n),
        Prog::Suspend(_, r) => lemma_bound_size(*r, n),
        Prog::Resume(_, r) => lemma_bound_size(*r, n),
        Prog::ResumeTo(_, _, r) => lemma_bound_size(*r, n),
    }
}

/// Splicing a completed computation in front of `b` is just `b`; splicing
/// `Done` behind `a` is just `a`.
pub proof fn lemma_spliced_done(a: Prog)
    ensures
        spliced(a, Prog::Done) == a,
        spliced(Prog::Done, a) == a,
    decreases a,
{
    match a {
        Prog::Done => {}
        Prog::Emit(_, r) => lemma_spliced_done(*r),
        Prog::Probe(r) => lemma_spliced_done(*r),
        Prog::Inc(_, r) => lemma_spliced_done(*r),
        Prog::Put(_, r) => lemma_spliced_done(*r),
        Prog::Suspend(_, r) => lemma_spliced_done(*r),
        Prog::Resume(_, r) => lemma_spliced_done(*r),
        Prog::ResumeTo(_, _, r) => lemma_spliced_done(*r),
    }
}

/// Run `a`, then go on as `b`: the executable form of [`spliced`].
pub fn splice(a: Prog, b: Prog) -> (r: Prog)
    ensures
        r == spliced(a, b),
    decreases a,
{
    match a {
        Prog::Done => b,
        Prog::Emit(m, r) => Prog::Emit(m, Box::new(splice(*r, b))),
        Prog::Probe(r) => Prog::Probe(Box::new(splice(*r, b))),
        Prog::Inc(k, r) => Prog::Inc(k, Box::new(splice(*r, b))),
        Prog::Put(k, r) => Prog::Put(k, Box::new(splice(*r, b))),
        Prog::Suspend(h, r) => Prog::Suspend(h, Box::new(splice(*r, b))),
        Prog::Resume(v, r) => Prog::Resume(v, Box::new(splice(*r, b))),
        Prog::ResumeTo(n, v, r) => Prog::ResumeTo(n, v, Box::new(splice(*r, b))),
    }
}

/// Bind a handler body to capability `n`: the executable form of [`bound`].
pub fn bind_handler(h: Prog, n: usize) -> (r: Prog)
    ensures
        r == bound(h, n),
    decreases h,
{
    match h {
        Prog::Done => Prog::Done,
        Prog::Emit(m, r) => Prog::Emit(m, Box::new(bind_handler(*r, n))),
        Prog::Probe(r) => Prog::Probe(Box::new(bind_handler(*r, n))),
        Prog::Inc(k, r) => Prog::Inc(k, Box::new(bind_handler(*r, n))),
        Prog::Put(k, r) => Prog::Put(k, Box::new(bind_handler(*r, n))),
        Prog::Suspend(hh, r) => Prog::Suspend(hh, Box::new(bind_handler(*r, n))),
        Prog::Resume(v, r) => Prog::ResumeTo(n, v, Box::new(bind_handler(*r, n))),
        Prog::ResumeTo(m, v, r) => Prog::ResumeTo(m, v, Box::new(bind_handler(*r, n))),
    }
}

} // verus!
