//! A single-threaded cooperative engine for delimited continuations.
//!
//! A computation is an owned, resumable description of "the remainder of the
//! work" (`prog::Prog`). The driver loop (`engine`) repeatedly advances the
//! sole live computation; a `Suspend` instruction captures everything after it
//! as a first-class continuation and hands control to a handler, which may
//! resume the captured branch exactly once through its one-shot resume
//! capability, or abandon it and steer the task elsewhere.
//!
//! Computations are written in explicit continuation-passing style — every
//! instruction owns the rest of the chain — so "what happens after this
//! point" is always a single-owner, movable, resume-at-most-once value, and
//! the whole handoff protocol (driver loop, capacity-one suspension channel,
//! one-shot transfer slots) is ordinary verified code. `semantics` gives the
//! machine the engine is proved against, `laws` states and proves its
//! governing properties, `effects` builds named effect handlers atop
//! suspensions, and `shift_reset` is the shift/reset spelling of the same
//! mechanism.

pub mod prog;
pub mod semantics;
pub mod engine;
pub mod laws;
pub mod effects;
pub mod shift_reset;

pub use crate::engine::run;
pub use crate::effects::run_effects;
pub use crate::engine::Task;
pub use crate::engine::RunResult;
pub use crate::prog::Prog;
pub use crate::semantics::Fault;
pub use crate::semantics::TaskResult;
