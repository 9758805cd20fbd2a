use vstd::prelude::*;

use crate::error::Fault;

verus! {

/// A plain interpreter value as it crosses the bridge.
///
/// The bridge moves values between native code and the interpreter's heap;
/// it never interprets them beyond the distinctions below.  `Pending` is the
/// bridge's internal suspension marker: interpreter programs obtain it only
/// through the asynchronous primitive (`CoOp::AwaitEvent`), never by building
/// it themselves.
#[derive(Clone, Copy, PartialEq, Eq, Structural, Debug)]
pub enum Value {
    Nil,
    Bool(bool),
    Int(i64),
    Pending,
}

/// Integer addition with the interpreter's wrap-around semantics.
pub open spec fn wrap_add(a: i64, b: i64) -> i64 {
    vstd::wrapping::i64_specs::wrapping_add(a, b)
}

/// The wrapped sum of the integers in a value sequence (values that are not
/// integers contribute nothing; callers guard with [`all_ints`]).
pub open spec fn wrapped_sum_vals(vs: Seq<Value>) -> i64
    decreases vs.len(),
{
    if vs.len() == 0 {
        0
    } else {
        match vs.last() {
            Value::Int(a) => wrap_add(wrapped_sum_vals(vs.drop_last()), a),
            _ => wrapped_sum_vals(vs.drop_last()),
        }
    }
}

/// Unrolling step for [`wrapped_sum_vals`] over a growing prefix.
pub proof fn lemma_wrapped_sum_vals_take_step(vs: Seq<Value>, i: int)
    requires
        0 <= i < vs.len(),
    ensures
        wrapped_sum_vals(vs.take(i + 1)) == match vs[i] {
            Value::Int(a) => wrap_add(wrapped_sum_vals(vs.take(i)), a),
            _ => wrapped_sum_vals(vs.take(i)),
        },
{
    assert(vs.take(i + 1).drop_last() =~= vs.take(i));
    assert(vs.take(i + 1).last() == vs[i]);
}

/// A resume or call result set is the pending marker exactly when it is a
/// single `Pending` value.
pub open spec fn is_pending_marker(vs: Seq<Value>) -> bool {
    vs.len() == 1 && vs[0] is Pending
}

/// True when every value in the sequence is an integer.
pub open spec fn all_ints(vs: Seq<Value>) -> bool {
    forall|i: int| 0 <= i < vs.len() ==> vs[i] is Int
}

/// Compute the wrapped sum of an all-integer value sequence, reporting the
/// interpreter's arithmetic fault on any other value.
pub fn wrapped_sum_exec(vals: &Vec<Value>) -> (r: Result<i64, Fault>)
    ensures
        all_ints(vals@) ==> r == Ok::<i64, Fault>(wrapped_sum_vals(vals@)),
        !all_ints(vals@) ==> r == Err::<i64, Fault>(Fault::ArithOnNonInteger),
{
    let mut acc: i64 = 0;
    let mut k: usize = 0;
    while k < vals.len()
        invariant
            k <= vals.len(),
            all_ints(vals@.take(k as int)),
            acc == wrapped_sum_vals(vals@.take(k as int)),
        decreases vals.len() - k,
    {
        proof {
            lemma_wrapped_sum_vals_take_step(vals@, k as int);
        }
        match vals[k] {
            Value::Int(a) => {
                acc = acc.wrapping_add(a);
            },
            _ => {
                proof {
                    assert(!all_ints(vals@)) by {
                        assert(vals@[k as int] !is Int);
                    }
                }
                return Err(Fault::ArithOnNonInteger);
            },
        }
        k = k + 1;
    }
    proof {
        assert(vals@.take(vals@.len() as int) =~= vals@);
    }
    Ok(acc)
}

/// Tests a produced value set for the bridge's suspension marker.
///
/// Only the bridge itself can arrange for a coroutine to produce this marker,
/// so a positive answer means an asynchronous primitive suspended rather than
/// a real value being yielded.
pub fn is_poll_pending(vals: &Vec<Value>) -> (pending: bool)
    ensures
        pending == is_pending_marker(vals@),
{
    if vals.len() == 1 {
        match vals[0] {
            Value::Pending => true,
            _ => false,
        }
    } else {
        false
    }
}

} // verus!
