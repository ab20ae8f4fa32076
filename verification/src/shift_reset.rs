//! The shift/reset spelling of the engine.
//!
//! Delimited continuations go by many names; this module offers the
//! shift/reset vocabulary over the one mechanism of [`crate::engine`]:
//! `reset` delimits and drives a computation exactly as `run` does, and
//! `shift` marks the point whose remainder is captured and handed to a
//! handler. Nothing here adds behaviour: the contracts are those of the
//! driver loop, restated under these names.

use vstd::prelude::*;
use crate::prog::Prog;
use crate::semantics::run_from;
use crate::semantics::init_cfg;
use crate::engine::Task;
use crate::engine::RunResult;
use crate::engine::drive;
use crate::engine::cfg_of;

verus! {

/// The handler side of the shift/reset vocabulary: a one-shot capability to
/// request a continuation swap. Consuming `self` keeps each handler good for
/// exactly one `shift`, as the engine's one-shot discipline demands.
pub trait ResetHandler {
    /// Build the computation that suspends here: everything after this
    /// point (`rest`) is captured as a continuation and handed, together
    /// with its one-shot resume capability, to the handler body.
    fn shift(self, body: Prog, rest: Prog) -> (r: Prog)
        ensures
            r == Prog::Suspend(Box::new(body), Box::new(rest)),
    ;
}

/// The engine-backed [`ResetHandler`]: its `shift` is the `Suspend`
/// instruction that [`ResetExecutor::run`]'s driver loop serves.
pub struct ResetHandlerImpl {}

impl ResetHandler for ResetHandlerImpl {
    fn shift(self, body: Prog, rest: Prog) -> (r: Prog) {
        Prog::Suspend(Box::new(body), Box::new(rest))
    }
}

/// The engine under its shift/reset name: owns the delimited computation and
/// the suspension channel, and drives the computation to its outcome.
pub struct ResetExecutor {
    pub task: Task,
}

impl ResetExecutor {
    /// Build the engine around an initial computation: a fresh task with an
    /// empty suspension channel, about to run `p`.
    pub fn new(p: Prog) -> (e: ResetExecutor)
        ensures
            cfg_of(e.task) == init_cfg(p),
            e.task.chan.slot is None,
    {
        ResetExecutor { task: Task::new(p) }
    }

    /// Drive the delimited computation to its outcome: the same driver loop,
    /// and the same contract, as [`crate::engine::run`].
    pub fn run(self) -> (r: RunResult)
        requires
            self.task.chan.slot is None,
        ensures
            r@ == run_from(cfg_of(self.task)),
    {
        drive(self.task)
    }
}

/// Run `p` under a delimiting prompt: the shift/reset name for
/// [`crate::engine::run`].
pub fn reset(p: Prog) -> (r: RunResult)
    ensures
        r@ == run_from(init_cfg(p)),
{
    ResetExecutor::new(p).run()
}

} // verus!
