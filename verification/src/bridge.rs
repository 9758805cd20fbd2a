use vstd::prelude::*;

use crate::coroutine::{
    co_after, co_event, cur_op, drive, lemma_drive_unfold_back, lemma_pending_items_len,
    lemma_scripted_args_irrelevant, pending_items, scripted, CoEvent,
};
use crate::error::Error;
use crate::interp::Interp;
use crate::pcall::lacks_headroom;
use crate::thread::{Thread, ThreadStatus};
use crate::value::{is_pending_marker, is_poll_pending, Value};

verus! {

/// A coroutine as a pollable asynchronous task.
///
/// Exactly one set of first-call arguments is stored and consumed on the
/// first poll; later polls resume with no arguments, mirroring the
/// distinction between starting a coroutine's main function and continuing
/// past a yield.
#[derive(Debug)]
pub struct AsyncThread {
    pub thread: Thread,
    pub first_args: Option<Vec<Value>>,
}

/// The arguments the next poll will resume with.
pub open spec fn poll_args(at: AsyncThread) -> Seq<Value> {
    match at.first_args {
        Some(a) => a@,
        None => Seq::empty(),
    }
}

impl Thread {
    /// Convert this thread into a pollable asynchronous task; `args` are
    /// the deferred arguments for the coroutine's first resume.
    pub fn into_async(self, args: Vec<Value>) -> (at: AsyncThread)
        ensures
            at.thread == self,
            at.first_args == Some(args),
    {
        AsyncThread { thread: self, first_args: Some(args) }
    }
}

/// One poll of a coroutine driven as a sequence of yielded items.
#[derive(Debug)]
pub enum StreamPoll {
    /// The sequence has terminated: the coroutine is spent.  The final
    /// return values are not delivered as a trailing item.
    Finished,
    /// An asynchronous primitive suspended.  The task must not wake itself:
    /// the primitive holding the parked waker will, once its event arrives.
    Pending,
    /// The coroutine yielded these values.  The task should wake itself so
    /// the next yield is delivered, strictly in order, on a later poll.
    Item(Vec<Value>),
    /// The resume failed; the error is delivered in place of an item and
    /// the sequence terminates on the next poll.
    Failed(Error),
}

/// One poll of a coroutine driven as a single-shot future: yielded values
/// are discarded and only the final return values resolve the future.
#[derive(Debug)]
pub enum FuturePoll {
    /// An asynchronous primitive suspended.  The task must not wake itself.
    Pending,
    /// A yielded value set was discarded; the task should wake itself and
    /// poll again.
    Yielded,
    /// The coroutine finished: its final return values, or the error that
    /// ended it.  Reaching a terminal state without ever returning is
    /// reported as `ThreadFinished`.
    Ready(Result<Vec<Value>, Error>),
}

impl AsyncThread {
    /// Drive one poll of the coroutine as a sequence of yielded items.
    ///
    /// Before the resume the task's `waker` is installed in the interpreter
    /// mailbox; it is removed again, unconditionally, after the resume
    /// returns, so at most one waker is ever visible to interpreter code.
    pub fn poll_next_step(&mut self, interp: &mut Interp, waker: u64) -> (step: StreamPoll)
        requires
            old(interp).wf(),
            old(self).thread.valid_in(*old(interp)),
        ensures
            final(interp).wf(),
            final(self).thread == old(self).thread,
            final(self).thread.valid_in(*final(interp)),
            final(interp).stack == old(interp).stack,
            final(interp).stack_limit == old(interp).stack_limit,
            final(interp).unref == old(interp).unref,
            final(interp).slots.len() == old(interp).slots.len(),
            forall|j: int|
                0 <= j < old(interp).slots.len() && j != old(self).thread.id()
                    ==> final(interp).slots[j] == #[trigger] old(interp).slots[j],
            old(self).thread.status_in(*old(interp)) != ThreadStatus::Resumable ==> step
                is Finished && *final(interp) == *old(interp) && *final(self) == *old(self),
            old(self).thread.status_in(*old(interp)) == ThreadStatus::Resumable ==> {
                let co = old(self).thread.co(*old(interp));
                let args = poll_args(*old(self));
                &&& final(self).first_args is None
                &&& final(interp).mailbox is None
                &&& (lacks_headroom(*old(interp), args.len()) ==> step == StreamPoll::Failed(
                    Error::StackOverflow,
                ) && final(self).thread.co(*final(interp)) == co)
                &&& (!lacks_headroom(*old(interp), args.len()) ==> {
                    &&& final(self).thread.co(*final(interp)) == co_after(
                        co,
                        args,
                        Some(waker),
                    )
                    &&& match co_event(co, args) {
                        CoEvent::Faulted(f) => step == StreamPoll::Failed(
                            Error::RuntimeError { fault: f, traceback: Some(co.pc) },
                        ),
                        CoEvent::Yielded(vs) => if is_pending_marker(vs) {
                            step is Pending
                        } else {
                            step matches StreamPoll::Item(out) && out@ == vs
                        },
                        CoEvent::Returned(vs) => if is_pending_marker(vs) {
                            step is Pending
                        } else {
                            step is Finished
                        },
                    }
                })
            },
    {
        match self.thread.status(interp) {
            ThreadStatus::Resumable => {},
            _ => {
                return StreamPoll::Finished;
            },
        }

        // Install the task's waker for the duration of this one resume.
        interp.install_waker(waker);
        let args = match self.first_args.take() {
            Some(a) => a,
            None => Vec::new(),
        };
        let res = self.thread.resume(interp, args);
        // Unconditionally vacate the mailbox again, success or failure.
        interp.remove_waker();

        match res {
            Err(e) => StreamPoll::Failed(e),
            Ok(vs) => {
                if is_poll_pending(&vs) {
                    return StreamPoll::Pending;
                }
                match self.thread.status(interp) {
                    ThreadStatus::Resumable => StreamPoll::Item(vs),
                    _ => StreamPoll::Finished,
                }
            },
        }
    }

    /// Drive one poll of the coroutine as a single-shot future.
    ///
    /// Yielded value sets are discarded (the task re-arms itself); only the
    /// coroutine's final return resolves the future.  Polling a thread that
    /// is already terminal is a contract violation reported as
    /// `ThreadFinished`.
    pub fn poll_future_step(&mut self, interp: &mut Interp, waker: u64) -> (step: FuturePoll)
        requires
            old(interp).wf(),
            old(self).thread.valid_in(*old(interp)),
        ensures
            final(interp).wf(),
            final(self).thread == old(self).thread,
            final(self).thread.valid_in(*final(interp)),
            final(interp).stack == old(interp).stack,
            final(interp).stack_limit == old(interp).stack_limit,
            final(interp).unref == old(interp).unref,
            final(interp).slots.len() == old(interp).slots.len(),
            forall|j: int|
                0 <= j < old(interp).slots.len() && j != old(self).thread.id()
                    ==> final(interp).slots[j] == #[trigger] old(interp).slots[j],
            old(self).thread.status_in(*old(interp)) != ThreadStatus::Resumable ==> step
                == FuturePoll::Ready(Err(Error::ThreadFinished)) && *final(interp) == *old(interp)
                && *final(self) == *old(self),
            old(self).thread.status_in(*old(interp)) == ThreadStatus::Resumable ==> {
                let co = old(self).thread.co(*old(interp));
                let args = poll_args(*old(self));
                &&& final(self).first_args is None
                &&& final(interp).mailbox is None
                &&& (lacks_headroom(*old(interp), args.len()) ==> step == FuturePoll::Ready(
                    Err(Error::StackOverflow),
                ) && final(self).thread.co(*final(interp)) == co)
                &&& (!lacks_headroom(*old(interp), args.len()) ==> {
                    &&& final(self).thread.co(*final(interp)) == co_after(
                        co,
                        args,
                        Some(waker),
                    )
                    &&& match co_event(co, args) {
                        CoEvent::Faulted(f) => step == FuturePoll::Ready(
                            Err(Error::RuntimeError { fault: f, traceback: Some(co.pc) }),
                        ),
                        CoEvent::Yielded(vs) => if is_pending_marker(vs) {
                            step is Pending
                        } else {
                            step is Yielded
                        },
                        CoEvent::Returned(vs) => if is_pending_marker(vs) {
                            step is Pending
                        } else {
                            step matches FuturePoll::Ready(out) && out matches Ok(vals) && vals@
                                == vs
                        },
                    }
                })
            },
    {
        match self.thread.status(interp) {
            ThreadStatus::Resumable => {},
            _ => {
                return FuturePoll::Ready(Err(Error::ThreadFinished));
            },
        }

        // Install the task's waker for the duration of this one resume.
        interp.install_waker(waker);
        let args = match self.first_args.take() {
            Some(a) => a,
            None => Vec::new(),
        };
        let res = self.thread.resume(interp, args);
        // Unconditionally vacate the mailbox again, success or failure.
        interp.remove_waker();

        match res {
            Err(e) => FuturePoll::Ready(Err(e)),
            Ok(vs) => {
                if is_poll_pending(&vs) {
                    return FuturePoll::Pending;
                }
                match self.thread.status(interp) {
                    // A yield mid-run: ignore the values, re-arm the task.
                    ThreadStatus::Resumable => FuturePoll::Yielded,
                    _ => FuturePoll::Ready(Ok(vs)),
                }
            },
        }
    }

    /// Drive a scripted coroutine's stream of polls to termination,
    /// collecting the items.
    ///
    /// This is the in-order delivery guarantee, stated against the poll
    /// function itself: a coroutine with `N` yields ahead of it produces
    /// exactly `N` items, the `k`-th poll delivering the `k`-th yield, and
    /// the sequence then terminates on the coroutine's return, with no
    /// trailing item for the returned values.
    #[verifier::loop_isolation(false)]
    pub fn collect_items(self, interp: &mut Interp, waker: u64) -> (items: Vec<Vec<Value>>)
        requires
            old(interp).wf(),
            self.thread.valid_in(*old(interp)),
            scripted(self.thread.co(*old(interp)).body),
            self.thread.co(*old(interp)).resumable(),
            old(interp).stack.len() + poll_args(self).len() + 1 <= old(interp).stack_limit,
        ensures
            final(interp).wf(),
            final(interp).stack == old(interp).stack,
            items@.map_values(|v: Vec<Value>| v@) == pending_items(self.thread.co(*old(interp))),
            self.thread.status_in(*final(interp)) == ThreadStatus::Unresumable,
    {
        let ghost co0 = self.thread.co(*old(interp));
        let mut at = self;
        let mut items: Vec<Vec<Value>> = Vec::new();
        let mut done = false;

        proof {
            lemma_pending_items_len(co0);
            assert(items@.map_values(|v: Vec<Value>| v@) + pending_items(co0) =~= pending_items(
                co0,
            ));
        }

        while !done
            invariant
                interp.wf(),
                at.thread == self.thread,
                at.thread.valid_in(*interp),
                at.thread.co(*interp).wf(),
                at.thread.co(*interp).body == co0.body,
                interp.stack == old(interp).stack,
                interp.stack_limit == old(interp).stack_limit,
                at.first_args is None || at.first_args == self.first_args,
                !done ==> at.thread.co(*interp).resumable(),
                !done ==> items@.map_values(|v: Vec<Value>| v@) + pending_items(
                    at.thread.co(*interp),
                ) == pending_items(co0),
                done ==> items@.map_values(|v: Vec<Value>| v@) == pending_items(co0)
                    && at.thread.co(*interp).prim is Done,
            decreases co0.body.steps.len() - at.thread.co(*interp).pc + (if done {
                0int
            } else {
                1int
            }),
        {
            let ghost co = at.thread.co(*interp);
            let ghost args = poll_args(at);
            proof {
                lemma_pending_items_len(co);
                if co.pc < co.body.steps.len() {
                    assert(cur_op(co) == co.body.steps[co.pc as int]);
                    assert(crate::coroutine::scripted_op(co.body.steps[co.pc as int]));
                }
                assert(crate::coroutine::scripted_op(cur_op(co)));
                assert(!crate::value::is_pending_marker(
                    crate::coroutine::op_values(cur_op(co), seq![], co.acc),
                ));
                lemma_scripted_args_irrelevant(co, args, Some(waker));
            }
            let step = at.poll_next_step(interp, waker);
            proof {
                let co1 = at.thread.co(*interp);
                assert(co1 == co_after(co, Seq::<Value>::empty(), None));
                if co.pc < co.body.steps.len() {
                    assert(pending_items(co) == seq![
                        crate::coroutine::op_values(cur_op(co), seq![], co.acc),
                    ] + pending_items(co1));
                }
            }
            match step {
                StreamPoll::Item(vs) => {
                    proof {
                        let f = |v: Vec<Value>| v@;
                        assert(items@.push(vs).map_values(f) =~= items@.map_values(f).push(vs@));
                        assert(items@.map_values(f).push(vs@) + pending_items(
                            at.thread.co(*interp),
                        ) =~= items@.map_values(f) + pending_items(co));
                    }
                    items.push(vs);
                },
                StreamPoll::Finished => {
                    proof {
                        assert(pending_items(co).len() == 0);
                        assert(items@.map_values(|v: Vec<Value>| v@) + pending_items(co)
                            =~= items@.map_values(|v: Vec<Value>| v@));
                    }
                    done = true;
                },
                StreamPoll::Pending => {
                    proof {
                        assert(false);
                    }
                },
                StreamPoll::Failed(_) => {
                    proof {
                        assert(false);
                    }
                },
            }
        }
        items
    }

    /// Drive a scripted coroutine as a single-shot future to completion.
    ///
    /// This is the discard guarantee, stated against the poll function
    /// itself: every yielded value set is dropped on the way, and the
    /// future resolves with exactly the values of the coroutine's final
    /// return.
    #[verifier::loop_isolation(false)]
    pub fn run_future(self, interp: &mut Interp, waker: u64) -> (r: Result<Vec<Value>, Error>)
        requires
            old(interp).wf(),
            self.thread.valid_in(*old(interp)),
            scripted(self.thread.co(*old(interp)).body),
            self.thread.co(*old(interp)).resumable(),
            old(interp).stack.len() + poll_args(self).len() + 1 <= old(interp).stack_limit,
        ensures
            final(interp).wf(),
            final(interp).stack == old(interp).stack,
            ({
                let co0 = self.thread.co(*old(interp));
                let spent = drive(co0, pending_items(co0).len());
                r matches Ok(vs) && co_event(spent, Seq::<Value>::empty()) == CoEvent::Returned(
                    vs@,
                )
            }),
            self.thread.status_in(*final(interp)) == ThreadStatus::Unresumable,
    {
        let ghost co0 = self.thread.co(*old(interp));
        let mut at = self;
        let ghost mut k: nat = 0;
        let mut answer: Result<Vec<Value>, Error> = Err(Error::ThreadFinished);
        let mut done = false;

        proof {
            lemma_pending_items_len(co0);
        }

        while !done
            invariant
                interp.wf(),
                at.thread == self.thread,
                at.thread.valid_in(*interp),
                at.thread.co(*interp).wf(),
                at.thread.co(*interp).body == co0.body,
                interp.stack == old(interp).stack,
                interp.stack_limit == old(interp).stack_limit,
                at.first_args is None || at.first_args == self.first_args,
                !done ==> at.thread.co(*interp).resumable(),
                !done ==> at.thread.co(*interp) == drive(co0, k),
                !done ==> k + pending_items(at.thread.co(*interp)).len() == pending_items(
                    co0,
                ).len(),
                done ==> at.thread.co(*interp).prim is Done,
                done ==> (answer matches Ok(vs) && co_event(
                    drive(co0, pending_items(co0).len()),
                    Seq::<Value>::empty(),
                ) == CoEvent::Returned(vs@)),
            decreases pending_items(at.thread.co(*interp)).len() + (if done {
                0int
            } else {
                1int
            }),
        {
            let ghost co = at.thread.co(*interp);
            let ghost args = poll_args(at);
            proof {
                lemma_pending_items_len(co);
                if co.pc < co.body.steps.len() {
                    assert(cur_op(co) == co.body.steps[co.pc as int]);
                    assert(crate::coroutine::scripted_op(co.body.steps[co.pc as int]));
                }
                assert(crate::coroutine::scripted_op(cur_op(co)));
                assert(!crate::value::is_pending_marker(
                    crate::coroutine::op_values(cur_op(co), seq![], co.acc),
                ));
                lemma_scripted_args_irrelevant(co, args, Some(waker));
                lemma_drive_unfold_back(co0, k);
            }
            let step = at.poll_future_step(interp, waker);
            proof {
                let co1 = at.thread.co(*interp);
                assert(co1 == co_after(co, Seq::<Value>::empty(), None));
                if co.pc < co.body.steps.len() {
                    lemma_pending_items_len(co1);
                }
            }
            match step {
                FuturePoll::Yielded => {
                    proof {
                        k = k + 1;
                    }
                },
                FuturePoll::Ready(res) => {
                    proof {
                        assert(pending_items(co).len() == 0);
                        assert(co == drive(co0, pending_items(co0).len()));
                    }
                    answer = res;
                    done = true;
                },
                FuturePoll::Pending => {
                    proof {
                        assert(false);
                    }
                },
            }
        }
        answer
    }
}

} // verus!
