use vstd::prelude::*;

use crate::coroutine::{co_after, co_event, co_step, CoBody, CoEvent, CoPrim, CoState, ResumeOut};
use crate::error::Error;
use crate::interp::{HandleRef, Interp, RegVal, SlotEntry};
use crate::pcall::lacks_headroom;
use crate::value::Value;

verus! {

/// Status of an interpreter thread (coroutine), as native code observes it.
#[derive(Clone, Copy, PartialEq, Eq, Structural, Debug)]
pub enum ThreadStatus {
    /// Just created, or suspended at a yield point: a resume is possible.
    Resumable,
    /// Finished executing, or currently running a resume already in flight.
    Unresumable,
    /// Raised an interpreter error during a resume; terminal.
    Error,
}

/// The status determined from the coroutine's primitive state: fresh or
/// mid-yield counts resumable; a finished or currently running coroutine
/// does not; a raised error is terminal.
pub open spec fn status_of(prim: CoPrim) -> ThreadStatus {
    match prim {
        CoPrim::Fresh => ThreadStatus::Resumable,
        CoPrim::Suspended => ThreadStatus::Resumable,
        CoPrim::Running => ThreadStatus::Unresumable,
        CoPrim::Done => ThreadStatus::Unresumable,
        CoPrim::Failed => ThreadStatus::Error,
    }
}

/// Handle to an interpreter coroutine: a counted registry reference
/// specialised to a coroutine slot.
#[derive(Debug)]
pub struct Thread {
    handle: HandleRef,
}

impl Thread {
    /// The registry slot of the referenced coroutine.
    pub closed spec fn id(self) -> int {
        self.handle.id()
    }

    /// The registry slot of the referenced coroutine.
    pub fn index(&self) -> (i: usize)
        ensures
            i as int == self.id(),
    {
        self.handle.index()
    }

    /// The handle references a live coroutine slot of this interpreter.
    pub open spec fn valid_in(self, interp: Interp) -> bool {
        interp.valid(self.id()) && interp.slots[self.id()].val is Co
    }

    /// The referenced coroutine's state.
    pub open spec fn co(self, interp: Interp) -> CoState {
        interp.slots[self.id()].val->Co_0
    }

    /// The thread's status in `interp`.
    pub open spec fn status_in(self, interp: Interp) -> ThreadStatus {
        status_of(self.co(interp).prim)
    }

    /// Two thread handles are equal when they reference the same coroutine.
    pub fn equals(&self, other: &Thread) -> (eq: bool)
        ensures
            eq == (self.id() == other.id()),
    {
        self.index() == other.index()
    }

    /// Get the status of the thread.
    pub fn status(&self, interp: &Interp) -> (st: ThreadStatus)
        requires
            interp.wf(),
            self.valid_in(*interp),
        ensures
            st == self.status_in(*interp),
    {
        let i = self.index();
        let prim = match &interp.slots[i].val {
            RegVal::Co(co) => co.prim,
            _ => vstd::pervasive::unreached(),
        };
        match prim {
            CoPrim::Fresh => ThreadStatus::Resumable,
            CoPrim::Suspended => ThreadStatus::Resumable,
            CoPrim::Running => ThreadStatus::Unresumable,
            CoPrim::Done => ThreadStatus::Unresumable,
            CoPrim::Failed => ThreadStatus::Error,
        }
    }

    /// Resume execution of this thread, passing `args` across to the
    /// coroutine's own execution stack.
    ///
    /// A thread that is not resumable is rejected with `CoroutineInactive`
    /// before any interpreter code runs.  Headroom for the arguments is
    /// asserted next, failing fast with `StackOverflow`.  Otherwise the
    /// coroutine executes until its next yield, return or raised error; a
    /// raised error is captured (with the coroutine's position as the
    /// traceback), marks the thread terminally `Error`, and is surfaced as a
    /// native error value.  The interpreter's execution stack is unchanged
    /// on every path.
    pub fn resume(&self, interp: &mut Interp, args: Vec<Value>) -> (r: Result<Vec<Value>, Error>)
        requires
            old(interp).wf(),
            self.valid_in(*old(interp)),
        ensures
            final(interp).wf(),
            self.valid_in(*final(interp)),
            final(interp).stack == old(interp).stack,
            final(interp).stack_limit == old(interp).stack_limit,
            final(interp).mailbox == old(interp).mailbox,
            final(interp).unref == old(interp).unref,
            final(interp).slots.len() == old(interp).slots.len(),
            forall|j: int|
                0 <= j < old(interp).slots.len() && j != self.id() ==> final(interp).slots[j]
                    == #[trigger] old(interp).slots[j],
            final(interp).slots[self.id()].refs == old(interp).slots[self.id()].refs,
            self.status_in(*old(interp)) != ThreadStatus::Resumable ==> r == Err::<
                Vec<Value>,
                Error,
            >(Error::CoroutineInactive) && *final(interp) == *old(interp),
            self.status_in(*old(interp)) == ThreadStatus::Resumable && lacks_headroom(
                *old(interp),
                args@.len(),
            ) ==> r == Err::<Vec<Value>, Error>(Error::StackOverflow) && *final(interp) == *old(
                interp,
            ),
            self.status_in(*old(interp)) == ThreadStatus::Resumable && !lacks_headroom(
                *old(interp),
                args@.len(),
            ) ==> {
                let co = self.co(*old(interp));
                &&& self.co(*final(interp)) == co_after(co, args@, old(interp).mailbox)
                &&& match co_event(co, args@) {
                    CoEvent::Yielded(vs) => r matches Ok(out) && out@ == vs,
                    CoEvent::Returned(vs) => r matches Ok(out) && out@ == vs,
                    CoEvent::Faulted(f) => r == Err::<Vec<Value>, Error>(
                        Error::RuntimeError { fault: f, traceback: Some(co.pc) },
                    ),
                }
            },
    {
        let i = self.index();
        let (prim, pc0) = match &interp.slots[i].val {
            RegVal::Co(co) => (co.prim, co.pc),
            _ => vstd::pervasive::unreached(),
        };
        let resumable = match prim {
            CoPrim::Fresh => true,
            CoPrim::Suspended => true,
            _ => false,
        };
        if !resumable {
            return Err(Error::CoroutineInactive);
        }

        // Assert headroom for the values about to cross, before re-entry.
        let headroom = interp.stack_limit - interp.stack.len();
        if headroom < 1 || headroom - 1 < args.len() {
            return Err(Error::StackOverflow);
        }

        let mailbox = interp.mailbox;
        let ev = match &mut interp.slots[i].val {
            RegVal::Co(co) => co_step(co, &args, mailbox),
            _ => vstd::pervasive::unreached(),
        };
        match ev {
            ResumeOut::Yielded(vs) => Ok(vs),
            ResumeOut::Returned(vs) => Ok(vs),
            ResumeOut::Faulted(f) => Err(
                Error::RuntimeError { fault: f, traceback: Some(pc0) },
            ),
        }
    }
}

impl Interp {
    /// Create a coroutine running `body` and hand back its thread handle.
    pub fn create_thread(&mut self, body: CoBody) -> (t: Thread)
        requires
            old(self).wf(),
            body.wf(),
        ensures
            final(self).wf(),
            old(self).same_but_slots(*final(self)),
            old(self).same_slots_except(*final(self), t.id()),
            t.valid_in(*final(self)),
            final(self).slots[t.id()] == (SlotEntry {
                refs: 1u64,
                val: RegVal::Co(CoState::fresh_for(body)),
            }),
    {
        let i = self.occupy_slot(
            RegVal::Co(CoState { body, pc: 0, acc: 0, prim: CoPrim::Fresh, parked_waker: None }),
        );
        Thread { handle: HandleRef::from_index(i) }
    }
}

/// A coroutine observed in its `Running` primitive state — a resume already
/// in flight at another call site — is not resumable, so by
/// [`Thread::resume`]'s contract a second, overlapping resume is rejected
/// with `CoroutineInactive` and leaves the interpreter untouched: resumes of
/// one coroutine never interleave.
pub proof fn lemma_overlapping_resume_rejected(prim: CoPrim)
    requires
        prim is Running,
    ensures
        status_of(prim) == ThreadStatus::Unresumable,
{
}

} // verus!
