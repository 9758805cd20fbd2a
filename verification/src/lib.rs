//! Safe, verified handles around an embedded, stack-based, non-reentrant
//! interpreter.
//!
//! The interpreter itself is modelled as an explicit state machine
//! ([`interp::Interp`]): a registry of reference-counted slots, an execution
//! stack with a fixed headroom limit, a single-occupancy waker mailbox and a
//! queue of deferred slot releases.  On top of that model the crate verifies
//! the bridge layer:
//!
//! - reference counting for long-lived handles into the registry
//!   ([`interp::HandleRef`], [`registry::RegistryKey`]);
//! - a protected-call protocol that turns interpreter-raised faults into
//!   native `Result` values while restoring the execution stack to its entry
//!   depth on every exit path ([`pcall::protected_call`]);
//! - a coroutine bridge that resumes cooperative threads, tracks their
//!   status, and drives them as pollable asynchronous tasks with strict,
//!   in-order delivery of yielded values ([`thread::Thread`],
//!   [`bridge::AsyncThread`]);
//! - bounded-lifetime registration of native callbacks and userdata with
//!   guaranteed two-phase invalidation ([`scope::Scope`]).

pub mod bridge;
pub mod coroutine;
pub mod error;
pub mod interp;
pub mod pcall;
pub mod registry;
pub mod scope;
pub mod thread;
pub mod value;
