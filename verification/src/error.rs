use vstd::prelude::*;

verus! {

/// An interpreter-level fault: the reason an interpreter error was raised.
///
/// The interpreter signals errors by a non-local jump; the protected-call
/// protocol captures the fault before it can cross a native frame.
#[derive(Clone, Copy, PartialEq, Eq, Structural, Debug)]
pub enum Fault {
    /// Arithmetic was attempted on a value that is not an integer.
    ArithOnNonInteger,
    /// An assertion inside interpreter code failed.
    AssertionFailed,
    /// A registry slot that holds no plain value was addressed.
    VacantSlot,
}

/// A native error value, as surfaced to callers of the bridge.
#[derive(Clone, Copy, PartialEq, Eq, Structural, Debug)]
pub enum Error {
    /// A resume was attempted on a thread that is not resumable.
    CoroutineInactive,
    /// An interpreter-level error was captured at a protected-call boundary.
    /// `traceback` carries the coroutine's position when one was available.
    RuntimeError { fault: Fault, traceback: Option<usize> },
    /// The execution stack lacked headroom for the values about to be
    /// pushed; detected before re-entering the interpreter.
    StackOverflow,
    /// A scoped callback or userdata object was invoked after its scope
    /// invalidated it.
    CallbackDestructed,
    /// A mutable native callback was re-entered while already executing.
    RecursiveMutCallback,
    /// A scoped userdata object's state was read while already borrowed.
    UserDataBorrowError,
    /// A thread driven as a single-shot future reached a terminal state
    /// without ever returning a value.
    ThreadFinished,
}

} // verus!
