use vstd::prelude::*;

use crate::error::{Error, Fault};
use crate::interp::{Interp, RegVal};
use crate::value::{all_ints, wrapped_sum_vals, Value};

verus! {

/// A raw interpreter operation, run only under the protected-call trap.
///
/// Each operation consumes the arguments pushed for it and may raise an
/// interpreter-level fault; the trap guarantees that such a fault becomes a
/// native error value instead of unwinding through native frames.
#[derive(Clone, Copy, PartialEq, Eq, Structural, Debug)]
pub enum RawOp {
    /// Pop the pushed arguments and push their wrapped integer sum; raises
    /// on a non-integer argument.
    AddInts,
    /// Push a copy of the plain value a registry slot holds; raises when
    /// the slot holds none.
    PushSlot(usize),
    /// Raise this fault unconditionally.
    Raise(Fault),
}

/// The values a raw operation leaves above the entry depth, or the fault it
/// raises.
pub open spec fn raw_op_result(interp: Interp, op: RawOp, args: Seq<Value>) -> Result<
    Seq<Value>,
    Fault,
> {
    match op {
        RawOp::AddInts => if all_ints(args) {
            Ok(seq![Value::Int(wrapped_sum_vals(args))])
        } else {
            Err(Fault::ArithOnNonInteger)
        },
        RawOp::PushSlot(i) => if interp.valid(i as int) && interp.slots[i as int].val is Data {
            Ok(seq![interp.slots[i as int].val->Data_0])
        } else {
            Err(Fault::VacantSlot)
        },
        RawOp::Raise(f) => Err(f),
    }
}

/// A result set adjusted to the expected count: surplus values are dropped,
/// missing ones filled with `Nil`.
pub open spec fn adjusted(vs: Seq<Value>, want: nat) -> Seq<Value> {
    if vs.len() >= want {
        vs.take(want as int)
    } else {
        vs + Seq::new((want - vs.len()) as nat, |i: int| Value::Nil)
    }
}

/// True when the execution stack lacks headroom for `nargs` arguments plus
/// one produced value.
pub open spec fn lacks_headroom(interp: Interp, nargs: nat) -> bool {
    interp.stack.len() + nargs + 1 > interp.stack_limit
}

/// Re-enter the interpreter under the protected-call protocol.
///
/// `args` are pushed onto the execution stack, `op` runs under a top-level
/// error trap, and the produced values are popped back into native code,
/// adjusted to `nresults`.  Headroom for the push is asserted first, failing
/// fast with a native `StackOverflow` before the interpreter could fault.
/// On every exit path — success, interpreter-level fault, or the early
/// native error — the execution stack is restored to its entry depth.
pub fn protected_call(interp: &mut Interp, args: Vec<Value>, op: RawOp, nresults: usize) -> (r:
    Result<Vec<Value>, Error>)
    requires
        old(interp).wf(),
    ensures
        final(interp).wf(),
        final(interp).stack@ == old(interp).stack@,
        final(interp).slots == old(interp).slots,
        final(interp).stack_limit == old(interp).stack_limit,
        final(interp).mailbox == old(interp).mailbox,
        final(interp).unref == old(interp).unref,
        lacks_headroom(*old(interp), args@.len()) ==> r == Err::<Vec<Value>, Error>(
            Error::StackOverflow,
        ),
        !lacks_headroom(*old(interp), args@.len()) ==> match raw_op_result(
            *old(interp),
            op,
            args@,
        ) {
            Ok(vs) => r matches Ok(out) && out@ == adjusted(vs, nresults as nat),
            Err(f) => r == Err::<Vec<Value>, Error>(
                Error::RuntimeError { fault: f, traceback: None },
            ),
        },
{
    let entry = interp.stack.len();

    // Fail fast when the stack lacks headroom for the arguments and one
    // produced value.
    let headroom = interp.stack_limit - entry;
    if headroom < 1 || headroom - 1 < args.len() {
        return Err(Error::StackOverflow);
    }

    // Push the arguments; the guard below truncates back to `entry` on
    // every path out.
    let mut k: usize = 0;
    while k < args.len()
        invariant
            k <= args.len(),
            entry == old(interp).stack.len(),
            entry + args@.len() <= interp.stack_limit,
            interp.wf(),
            interp.slots == old(interp).slots,
            interp.stack_limit == old(interp).stack_limit,
            interp.mailbox == old(interp).mailbox,
            interp.unref == old(interp).unref,
            interp.stack@ == old(interp).stack@ + args@.take(k as int),
        decreases args.len() - k,
    {
        interp.stack.push(args[k]);
        proof {
            assert(interp.stack@ =~= old(interp).stack@ + args@.take(k + 1));
        }
        k = k + 1;
    }

    // Run the operation under the trap.
    let outcome: Result<Vec<Value>, Fault> = match op {
        RawOp::AddInts => match crate::value::wrapped_sum_exec(&args) {
            Ok(s) => Ok(vec![Value::Int(s)]),
            Err(f) => Err(f),
        },
        RawOp::PushSlot(i) => {
            if i < interp.slots.len() {
                match &interp.slots[i].val {
                    RegVal::Data(v) => Ok(vec![*v]),
                    _ => Err(Fault::VacantSlot),
                }
            } else {
                Err(Fault::VacantSlot)
            }
        },
        RawOp::Raise(f) => Err(f),
    };

    // The scope guard: restore the entry depth unconditionally.
    interp.stack.truncate(entry);
    proof {
        assert(interp.stack@ =~= old(interp).stack@);
    }

    match outcome {
        Err(f) => Err(Error::RuntimeError { fault: f, traceback: None }),
        Ok(vs) => {
            proof {
                match raw_op_result(*old(interp), op, args@) {
                    Ok(want) => {
                        assert(vs@ =~= want);
                    },
                    Err(_) => {
                        assert(false);
                    },
                }
            }
            Ok(adjust_results(vs, nresults))
        },
    }
}

/// Adjust a produced value set to the count the caller asked for.
fn adjust_results(vs: Vec<Value>, nresults: usize) -> (out: Vec<Value>)
    ensures
        out@ == adjusted(vs@, nresults as nat),
{
    let mut out = vs;
    if out.len() > nresults {
        out.truncate(nresults);
        proof {
            assert(out@ =~= adjusted(vs@, nresults as nat));
        }
    } else {
        while out.len() < nresults
            invariant
                vs@.len() <= out@.len() <= nresults,
                out@.take(vs@.len() as int) == vs@,
                forall|j: int| vs@.len() <= j < out@.len() ==> out@[j] == Value::Nil,
            decreases nresults - out.len(),
        {
            out.push(Value::Nil);
            proof {
                assert(out@.take(vs@.len() as int) =~= vs@);
            }
        }
        proof {
            assert(out@ =~= adjusted(vs@, nresults as nat));
        }
    }
    out
}

} // verus!
