//! The executable engine: driver loop, suspension channel, transfer slots.
//!
//! [`Task`] owns the sole live computation and everything around it. The
//! driver loop ([`run`]) repeatedly advances the computation; when a
//! `Suspend` instruction fires, the suspend protocol ([`Task::switch`]) puts
//! a request into the capacity-one suspension channel, advancing reports
//! "not yet complete", and the driver immediately drains the channel and
//! installs the handler as the new current computation. Every contract is
//! stated against the specification machine in [`crate::semantics`].

use vstd::prelude::*;
use crate::prog::{Prog, splice, bind_handler, bound};
use crate::semantics::{Cfg, Fault, TaskResult, Outcome, Step, step, run_from, init_cfg, measure, lemma_step_measure};

verus! {

/// A pending suspension request: the handler to install, and the captured
/// continuation (everything after the `Suspend` that raised the request)
/// that the handler's resume capability will receive.
pub struct Request {
    pub handler: Prog,
    pub cont: Prog,
}

/// The capacity-one handoff conduit from the suspend protocol to the driver
/// loop. Only `switch` writes, exactly once per cycle, and the driver drains
/// the slot before the computation runs any further, so sending never finds
/// the slot full; that discipline is a precondition, not a runtime check.
pub struct SuspensionChannel {
    pub slot: Option<Request>,
}

impl SuspensionChannel {
    /// A fresh, empty channel.
    pub fn new() -> (c: SuspensionChannel)
        ensures
            c.slot is None,
    {
        SuspensionChannel { slot: None }
    }

    /// Enqueue a request. Capacity is exactly one: a second enqueue before
    /// the driver drains the first would break the single-producer
    /// discipline, so an empty slot is required.
    pub fn try_send(&mut self, r: Request)
        requires
            old(self).slot is None,
        ensures
            final(self).slot == Some(r),
    {
        self.slot = Some(r);
    }

    /// Drain the channel: the pending request if one is there, leaving the
    /// slot empty either way.
    pub fn try_recv(&mut self) -> (r: Option<Request>)
        ensures
            final(self).slot is None,
            r == old(self).slot,
    {
        let mut out: Option<Request> = None;
        core::mem::swap(&mut self.slot, &mut out);
        out
    }
}

/// What advancing the computation reports: its final value, "not yet
/// complete" with a suspension request pending in the channel, or the fault
/// that aborted the run.
pub enum Advance {
    Complete(i64),
    Incomplete,
    Faulted(Fault),
}

/// A running task: the sole live computation, its accumulator, the one-shot
/// transfer slots of all suspensions so far, the trace, and the suspension
/// channel. Exactly one computation is current at any instant; everything a
/// handler may later resume sits in `held`.
pub struct Task {
    pub prog: Prog,
    pub acc: i64,
    pub held: Vec<Option<Prog>>,
    pub trace: Vec<i64>,
    pub chan: SuspensionChannel,
}

/// The configuration of the specification machine that a task currently
/// stands at. Meaningful while the suspension channel is empty.
pub open spec fn cfg_of(t: Task) -> Cfg {
    Cfg { prog: t.prog, acc: t.acc, held: t.held@, trace: t.trace@ }
}

/// The configuration a task will stand at once the driver installs the
/// pending request `req`: the handler, bound to the fresh capability, becomes
/// current, and the captured continuation moves into a fresh transfer slot.
pub open spec fn swap_cfg(t: Task, req: Request) -> Cfg {
    Cfg {
        prog: bound(req.handler, t.held@.len() as usize),
        acc: t.acc,
        held: t.held@.push(Some(req.cont)),
        trace: t.trace@,
    }
}

impl Task {
    /// A fresh task about to run `p`.
    pub fn new(p: Prog) -> (t: Task)
        ensures
            cfg_of(t) == init_cfg(p),
            t.chan.slot is None,
    {
        let t = Task {
            prog: p,
            acc: 0,
            held: Vec::new(),
            trace: Vec::new(),
            chan: SuspensionChannel::new(),
        };
        proof {
            assert(cfg_of(t) == init_cfg(p)) by {
                assert(t.held@ =~= Seq::<Option<Prog>>::empty());
                assert(t.trace@ =~= Seq::<i64>::empty());
            }
        }
        t
    }

    /// The suspend protocol: pause the current computation, handing the
    /// handler and the captured continuation to the driver loop through the
    /// suspension channel. Only the running computation calls this, once per
    /// cycle, while the channel is empty; the computation then reports "not
    /// yet complete" and the driver acts before anything else runs.
    pub fn switch(&mut self, handler: Prog, cont: Prog)
        requires
            old(self).chan.slot is None,
        ensures
            final(self).chan.slot == Some((Request { handler, cont })),
            final(self).prog == old(self).prog,
            final(self).acc == old(self).acc,
            final(self).held == old(self).held,
            final(self).trace == old(self).trace,
    {
        self.chan.try_send(Request { handler, cont });
    }

    /// Deliver `v` through transfer slot `n`: the one-shot rendezvous of a
    /// resume capability. Takes the captured continuation out of the slot;
    /// a spent or never-created slot means the capability was invoked a
    /// second time, which is fatal.
    fn deliver(&mut self, n: usize) -> (r: Option<Prog>)
        ensures
            final(self).prog == old(self).prog,
            final(self).acc == old(self).acc,
            final(self).trace == old(self).trace,
            final(self).chan == old(self).chan,
            n < old(self).held@.len() ==> {
                &&& r == old(self).held@[n as int]
                &&& final(self).held@ =~= old(self).held@.update(n as int, None)
            },
            n >= old(self).held@.len() ==> {
                &&& r is None
                &&& final(self).held == old(self).held
            },
    {
        if n < self.held.len() {
            let slot = self.held.remove(n);
            self.held.insert(n, None);
            proof {
                assert(self.held@ =~= old(self).held@.update(n as int, None));
            }
            slot
        } else {
            None
        }
    }

    /// Advance the sole live computation until it completes, suspends or
    /// faults: the driver loop's one operation on it. On "not yet complete" a
    /// suspension request is pending in the channel, and installing it leads
    /// on to the same outcome the computation was headed for.
    #[verifier::loop_isolation(false)]
    pub fn advance(&mut self) -> (r: Advance)
        requires
            old(self).chan.slot is None,
        ensures
            match r {
                Advance::Complete(v) => {
                    &&& final(self).chan.slot is None
                    &&& run_from(cfg_of(*old(self))) == (Outcome {
                        result: TaskResult::Completed(v),
                        trace: final(self).trace@,
                    })
                },
                Advance::Faulted(f) => {
                    &&& final(self).chan.slot is None
                    &&& run_from(cfg_of(*old(self))) == (Outcome {
                        result: TaskResult::Faulted(f),
                        trace: final(self).trace@,
                    })
                },
                Advance::Incomplete => {
                    &&& final(self).chan.slot matches Some(req)
                    &&& run_from(cfg_of(*old(self))) == run_from(swap_cfg(*final(self), req))
                    &&& measure(swap_cfg(*final(self), req)) < measure(cfg_of(*old(self)))
                },
            },
    {
        loop
            invariant
                self.chan.slot is None,
                run_from(cfg_of(*old(self))) == run_from(cfg_of(*self)),
                measure(cfg_of(*self)) <= measure(cfg_of(*old(self))),
            decreases measure(cfg_of(*self)),
        {
            let ghost c_here = cfg_of(*self);
            let mut p = Prog::Done;
            core::mem::swap(&mut self.prog, &mut p);
            match p {
                Prog::Done => {
                    return Advance::Complete(self.acc);
                }
                Prog::Emit(m, r) => {
                    self.trace.push(m);
                    self.prog = *r;
                }
                Prog::Probe(r) => {
                    self.trace.push(self.acc);
                    self.prog = *r;
                }
                Prog::Inc(k, r) => {
                    self.acc = self.acc.wrapping_add(k);
                    self.prog = *r;
                }
                Prog::Put(k, r) => {
                    self.acc = k;
                    self.prog = *r;
                }
                Prog::Suspend(h, k) => {
                    self.switch(*h, *k);
                    proof {
                        assert(step(c_here) == Step::Next(swap_cfg(*self, (Request {
                            handler: *h,
                            cont: *k,
                        }))));
                        lemma_step_measure(c_here);
                    }
                    return Advance::Incomplete;
                }
                Prog::Resume(_, _) => {
                    return Advance::Faulted(Fault::StrayResume);
                }
                Prog::ResumeTo(n, v, r) => {
                    match self.deliver(n) {
                        Some(k) => {
                            self.acc = v;
                            self.prog = splice(k, *r);
                        }
                        None => {
                            return Advance::Faulted(Fault::SpentCapability);
                        }
                    }
                }
            }
            proof {
                assert(step(c_here) == Step::Next(cfg_of(*self)));
                lemma_step_measure(c_here);
            }
        }
    }
}

/// The result of a run: how it ended, and every marker it recorded, in
/// order.
pub struct RunResult {
    pub result: TaskResult,
    pub trace: Vec<i64>,
}

impl View for RunResult {
    type V = Outcome;

    open spec fn view(&self) -> Outcome {
        Outcome { result: self.result, trace: self.trace@ }
    }
}

/// The driver loop: own the task, repeatedly advance its computation, and on
/// each suspension drain the channel and install the handler, bound to a
/// fresh capability, as the new current computation — immediately, before
/// anything else of the task runs. A computation reports "not yet complete"
/// only for a suspension, so the channel is provably never empty at a drain
/// and the loop never has to wait to be woken.
#[verifier::loop_isolation(false)]
pub(crate) fn drive(t: Task) -> (r: RunResult)
    requires
        t.chan.slot is None,
    ensures
        r@ == run_from(cfg_of(t)),
{
    let mut t = t;
    let ghost c0 = cfg_of(t);
    loop
        invariant
            t.chan.slot is None,
            run_from(c0) == run_from(cfg_of(t)),
            measure(cfg_of(t)) <= measure(c0),
        decreases measure(cfg_of(t)),
    {
        match t.advance() {
            Advance::Complete(v) => {
                return RunResult { result: TaskResult::Completed(v), trace: t.trace };
            }
            Advance::Faulted(f) => {
                return RunResult { result: TaskResult::Faulted(f), trace: t.trace };
            }
            Advance::Incomplete => {
                let req = t.chan.try_recv().unwrap();
                let n = t.held.len();
                t.held.push(Some(req.cont));
                t.prog = bind_handler(req.handler, n);
            }
        }
    }
}

/// Run a computation with suspend capability to completion and hand back its
/// outcome together with the trace it recorded.
///
/// The one entry point: builds the task and its suspension channel, drives
/// the computation, swapping it for a handler's replacement on every
/// suspension, until a final value (or a fault) is produced. A task handle
/// has no runtime form here — suspension is the `Suspend` instruction
/// itself — so `run` takes the initial computation directly. The contract
/// pins the whole result to the specification machine: for every `p`, the
/// returned result and trace are exactly those of [`run_from`] started on
/// `p`.
pub fn run(p: Prog) -> (r: RunResult)
    ensures
        r@ == run_from(init_cfg(p)),
{
    drive(Task::new(p))
}

} // verus!
