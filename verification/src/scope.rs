use vstd::prelude::*;

use crate::error::{Error, Fault};
use crate::interp::{HandleRef, Interp, RegVal, SlotEntry};
use crate::value::{all_ints, wrapped_sum_vals, Value};

verus! {

/// What a registered native callback computes from its call arguments.
///
/// A native closure is opaque to the interpreter; the model gives each
/// registered callback one of a few scripted behaviours so that invocation,
/// re-entry detection and invalidation can be stated exactly.
#[derive(Clone, Copy, PartialEq, Eq, Structural, Debug)]
pub enum CbBehavior {
    /// Hand the arguments back unchanged.
    Echo,
    /// Produce this constant.
    ConstInt(i64),
    /// Produce the wrapped sum of the integer arguments; a non-integer
    /// argument is a runtime error.
    SumInts,
}

/// A native callback living in a registry slot.
#[derive(Debug)]
pub struct CallbackSlot {
    /// Cleared by the owning scope's invalidation; an inert callback can no
    /// longer reach its (freed) native closure.
    pub alive: bool,
    /// A mutable closure: re-entry while already executing is detected and
    /// rejected rather than prevented.
    pub exclusive: bool,
    /// An invocation of this callback is currently on the native stack.
    pub in_call: bool,
    pub behavior: CbBehavior,
}

/// A native userdata object living in a registry slot.
#[derive(Debug)]
pub struct UserdataSlot {
    /// Cleared by the owning scope's invalidation.
    pub alive: bool,
    /// The object's state is currently borrowed by an invocation.
    pub borrowed: bool,
    pub data: Value,
}

/// A bounded-lifetime region for registering native callbacks and userdata.
///
/// Every registration is recorded; when the scope is closed, all registered
/// interpreter-side objects are first marked inert (phase one, completed for
/// the whole batch before anything else runs) and only then are the captured
/// native payloads handed back for destruction (phase two).  A destructor
/// panic in phase two therefore cannot leave a live interpreter-visible
/// handle pointing at freed native state.
#[derive(Debug)]
pub struct Scope {
    pub registered: Vec<usize>,
}

/// Slot `id` can no longer reach native state: it was released entirely, or
/// its scoped object is marked inert.
pub open spec fn inert(interp: Interp, id: int) -> bool {
    ||| !interp.valid(id)
    ||| interp.slots[id].val matches RegVal::Callback(cb) && !cb.alive
    ||| interp.slots[id].val matches RegVal::Userdata(ud) && !ud.alive
}

/// The captured native payload handed back by a scope close for phase-two
/// destruction.
#[derive(Clone, Copy, PartialEq, Eq, Structural, Debug)]
pub enum ScopedPayload {
    Callback(CbBehavior),
    Userdata(Value),
}

/// The payload a scoped slot releases.
pub open spec fn payload_of(val: RegVal) -> ScopedPayload {
    match val {
        RegVal::Callback(cb) => ScopedPayload::Callback(cb.behavior),
        RegVal::Userdata(ud) => ScopedPayload::Userdata(ud.data),
        _ => ScopedPayload::Callback(CbBehavior::Echo),
    }
}

/// Marking a scoped slot inert: the object stays in place, only its link to
/// native state is severed.
pub open spec fn marked_inert(val: RegVal) -> RegVal {
    match val {
        RegVal::Callback(cb) => RegVal::Callback(CallbackSlot { alive: false, ..cb }),
        RegVal::Userdata(ud) => RegVal::Userdata(UserdataSlot { alive: false, ..ud }),
        v => v,
    }
}

impl Scope {
    /// Every registered slot is a live scoped object of this interpreter.
    pub open spec fn wf(self, interp: Interp) -> bool {
        forall|i: int|
            0 <= i < self.registered.len() ==> {
                let id = (#[trigger] self.registered[i]) as int;
                &&& interp.valid(id)
                &&& (interp.slots[id].val is Callback || interp.slots[id].val is Userdata)
            }
    }

    /// No slot is registered twice.
    pub open spec fn distinct(self) -> bool {
        forall|i: int, j: int|
            0 <= i < j < self.registered.len() ==> #[trigger] self.registered[i]
                != #[trigger] self.registered[j]
    }

    /// Slot `id` was registered through this scope.
    pub open spec fn owns(self, id: int) -> bool {
        exists|i: int| 0 <= i < self.registered.len() && (#[trigger] self.registered[i]) as int == id
    }

    pub fn new() -> (s: Scope)
        ensures
            s.registered.len() == 0,
    {
        Scope { registered: Vec::new() }
    }

    /// Register a native callback, making it callable from the interpreter
    /// until the scope closes.
    fn create_callback(&mut self, interp: &mut Interp, behavior: CbBehavior, exclusive: bool) -> (f:
        HandleRef)
        requires
            old(interp).wf(),
        ensures
            final(interp).wf(),
            old(interp).same_but_slots(*final(interp)),
            old(interp).same_slots_except(*final(interp), f.id()),
            final(interp).valid(f.id()),
            final(interp).slots[f.id()] == (SlotEntry {
                refs: 1u64,
                val: RegVal::Callback(
                    CallbackSlot { alive: true, exclusive, in_call: false, behavior },
                ),
            }),
            final(self).registered@ == old(self).registered@.push((f.id() as usize)),
    {
        let i = interp.occupy_slot(
            RegVal::Callback(CallbackSlot { alive: true, exclusive, in_call: false, behavior }),
        );
        self.registered.push(i);
        HandleRef::from_index(i)
    }

    /// Wrap an immutable native closure as a callable interpreter value that
    /// expires on scope close.
    pub fn create_function(&mut self, interp: &mut Interp, behavior: CbBehavior) -> (f: HandleRef)
        requires
            old(interp).wf(),
        ensures
            final(interp).wf(),
            old(interp).same_but_slots(*final(interp)),
            old(interp).same_slots_except(*final(interp), f.id()),
            final(interp).valid(f.id()),
            final(interp).slots[f.id()] == (SlotEntry {
                refs: 1u64,
                val: RegVal::Callback(
                    CallbackSlot { alive: true, exclusive: false, in_call: false, behavior },
                ),
            }),
            final(self).registered@ == old(self).registered@.push((f.id() as usize)),
    {
        self.create_callback(interp, behavior, false)
    }

    /// Wrap a mutable native closure: like [`Scope::create_function`], but a
    /// re-entrant invocation is rejected with `RecursiveMutCallback`.
    pub fn create_function_mut(&mut self, interp: &mut Interp, behavior: CbBehavior) -> (f:
        HandleRef)
        requires
            old(interp).wf(),
        ensures
            final(interp).wf(),
            old(interp).same_but_slots(*final(interp)),
            old(interp).same_slots_except(*final(interp), f.id()),
            final(interp).valid(f.id()),
            final(interp).slots[f.id()] == (SlotEntry {
                refs: 1u64,
                val: RegVal::Callback(
                    CallbackSlot { alive: true, exclusive: true, in_call: false, behavior },
                ),
            }),
            final(self).registered@ == old(self).registered@.push((f.id() as usize)),
    {
        self.create_callback(interp, behavior, true)
    }

    /// Register a native userdata object that expires on scope close.
    pub fn create_static_userdata(&mut self, interp: &mut Interp, data: Value) -> (u: HandleRef)
        requires
            old(interp).wf(),
        ensures
            final(interp).wf(),
            old(interp).same_but_slots(*final(interp)),
            old(interp).same_slots_except(*final(interp), u.id()),
            final(interp).valid(u.id()),
            final(interp).slots[u.id()] == (SlotEntry {
                refs: 1u64,
                val: RegVal::Userdata(UserdataSlot { alive: true, borrowed: false, data }),
            }),
            final(self).registered@ == old(self).registered@.push((u.id() as usize)),
    {
        let i = interp.occupy_slot(RegVal::Userdata(UserdataSlot { alive: true, borrowed: false, data }));
        self.registered.push(i);
        HandleRef::from_index(i)
    }

    /// Close the scope: invalidate every registered object, then hand back
    /// the captured native payloads for destruction.
    ///
    /// Phase one marks the whole batch inert before this function returns
    /// (and before any payload can be destructed), so even a panicking
    /// phase-two destructor finds no live interpreter-visible object.
    pub fn close(self, interp: &mut Interp) -> (payloads: Vec<ScopedPayload>)
        requires
            old(interp).wf(),
            self.wf(*old(interp)),
            self.distinct(),
        ensures
            final(interp).wf(),
            old(interp).same_but_slots(*final(interp)),
            final(interp).slots.len() == old(interp).slots.len(),
            forall|i: int|
                0 <= i < self.registered.len() ==> inert(
                    *final(interp),
                    (#[trigger] self.registered[i]) as int,
                ),
            payloads.len() == self.registered.len(),
            forall|i: int|
                0 <= i < self.registered.len() ==> #[trigger] payloads[i] == payload_of(
                    old(interp).slots[self.registered[i] as int].val,
                ),
            forall|j: int|
                0 <= j < old(interp).slots.len() && !self.owns(j) ==> final(interp).slots[j]
                    == #[trigger] old(interp).slots[j],
            forall|i: int|
                0 <= i < self.registered.len() ==> final(interp).slots[self.registered[i] as int]
                    == (SlotEntry {
                    refs: old(interp).slots[self.registered[i] as int].refs,
                    val: marked_inert(old(interp).slots[(#[trigger] self.registered[i]) as int].val),
                }),
    {
        let n = self.registered.len();

        // Phase one: sever every registered object's link to native state.
        let mut k: usize = 0;
        while k < n
            invariant
                old(interp).wf(),
                interp.wf(),
                self.wf(*old(interp)),
                self.distinct(),
                k <= n,
                n == self.registered.len(),
                old(interp).same_but_slots(*interp),
                interp.slots.len() == old(interp).slots.len(),
                forall|j: int|
                    0 <= j < old(interp).slots.len() && !self.owns(j) ==> interp.slots[j]
                        == #[trigger] old(interp).slots[j],
                forall|i: int|
                    k <= i < n ==> interp.slots[self.registered[i] as int]
                        == #[trigger] old(interp).slots[self.registered[i] as int],
                forall|i: int|
                    0 <= i < k ==> interp.slots[self.registered[i] as int] == (SlotEntry {
                        refs: old(interp).slots[self.registered[i] as int].refs,
                        val: marked_inert(
                            old(interp).slots[(#[trigger] self.registered[i]) as int].val,
                        ),
                    }),
            decreases n - k,
        {
            let id = self.registered[k];
            let entry = &mut interp.slots[id];
            match &mut entry.val {
                RegVal::Callback(cb) => {
                    cb.alive = false;
                },
                RegVal::Userdata(ud) => {
                    ud.alive = false;
                },
                _ => {
                    proof {
                        assert(false);
                    }
                },
            }
            k = k + 1;
        }

        // Phase two: hand the captured payloads back for destruction.
        let mut payloads: Vec<ScopedPayload> = Vec::new();
        let mut k2: usize = 0;
        while k2 < n
            invariant
                old(interp).wf(),
                self.wf(*old(interp)),
                k2 <= n,
                n == self.registered.len(),
                payloads.len() == k2,
                interp.slots.len() == old(interp).slots.len(),
                forall|i: int|
                    0 <= i < n ==> interp.slots[self.registered[i] as int] == (SlotEntry {
                        refs: old(interp).slots[self.registered[i] as int].refs,
                        val: marked_inert(
                            old(interp).slots[(#[trigger] self.registered[i]) as int].val,
                        ),
                    }),
                forall|i: int|
                    0 <= i < k2 ==> #[trigger] payloads[i] == payload_of(
                        old(interp).slots[self.registered[i] as int].val,
                    ),
            decreases n - k2,
        {
            let id = self.registered[k2];
            let payload = match &interp.slots[id].val {
                RegVal::Callback(cb) => ScopedPayload::Callback(cb.behavior),
                RegVal::Userdata(ud) => ScopedPayload::Userdata(ud.data),
                _ => vstd::pervasive::unreached(),
            };
            payloads.push(payload);
            k2 = k2 + 1;
        }
        payloads
    }
}

/// What invoking a callback slot with `args` produces.
pub open spec fn cb_result(cb: CallbackSlot, args: Seq<Value>) -> Result<Seq<Value>, Error> {
    if !cb.alive {
        Err(Error::CallbackDestructed)
    } else if cb.exclusive && cb.in_call {
        Err(Error::RecursiveMutCallback)
    } else {
        match cb.behavior {
            CbBehavior::Echo => Ok(args),
            CbBehavior::ConstInt(c) => Ok(seq![Value::Int(c)]),
            CbBehavior::SumInts => if all_ints(args) {
                Ok(seq![Value::Int(wrapped_sum_vals(args))])
            } else {
                Err(Error::RuntimeError { fault: Fault::ArithOnNonInteger, traceback: None })
            },
        }
    }
}

/// Invoke a scoped callback from the interpreter.
///
/// An inert callback fails cleanly with `CallbackDestructed`: its native
/// closure is unreachable and is never resurrected.  A mutable callback
/// observed mid-invocation fails with `RecursiveMutCallback`.
#[verifier::loop_isolation(false)]
pub fn call_scoped_callback(interp: &Interp, f: &HandleRef, args: Vec<Value>) -> (r: Result<
    Vec<Value>,
    Error,
>)
    requires
        interp.wf(),
        interp.valid(f.id()),
        interp.slots[f.id()].val is Callback,
    ensures
        match cb_result(interp.slots[f.id()].val->Callback_0, args@) {
            Ok(vs) => r matches Ok(out) && out@ == vs,
            Err(e) => r matches Err(e2) && e2 == e,
        },
{
    let i = f.index();
    let cb = match &interp.slots[i].val {
        RegVal::Callback(cb) => cb,
        _ => vstd::pervasive::unreached(),
    };
    if !cb.alive {
        return Err(Error::CallbackDestructed);
    }
    if cb.exclusive && cb.in_call {
        return Err(Error::RecursiveMutCallback);
    }
    match cb.behavior {
        CbBehavior::Echo => Ok(args),
        CbBehavior::ConstInt(c) => {
            let out = vec![Value::Int(c)];
            proof {
                assert(out@ =~= seq![Value::Int(c)]);
            }
            Ok(out)
        },
        CbBehavior::SumInts => match crate::value::wrapped_sum_exec(&args) {
            Ok(s) => {
                let out = vec![Value::Int(s)];
                proof {
                    assert(out@ =~= seq![Value::Int(wrapped_sum_vals(args@))]);
                }
                Ok(out)
            },
            Err(f) => Err(Error::RuntimeError { fault: f, traceback: None }),
        },
    }
}

/// Read a scoped userdata object's captured value from the interpreter.
pub fn scoped_userdata_value(interp: &Interp, u: &HandleRef) -> (r: Result<Value, Error>)
    requires
        interp.wf(),
        interp.valid(u.id()),
        interp.slots[u.id()].val is Userdata,
    ensures
        ({
            let ud = interp.slots[u.id()].val->Userdata_0;
            if !ud.alive {
                r == Err::<Value, Error>(Error::CallbackDestructed)
            } else if ud.borrowed {
                r == Err::<Value, Error>(Error::UserDataBorrowError)
            } else {
                r == Ok::<Value, Error>(ud.data)
            }
        }),
{
    let i = u.index();
    let ud = match &interp.slots[i].val {
        RegVal::Userdata(ud) => ud,
        _ => vstd::pervasive::unreached(),
    };
    if !ud.alive {
        Err(Error::CallbackDestructed)
    } else if ud.borrowed {
        Err(Error::UserDataBorrowError)
    } else {
        Ok(ud.data)
    }
}

} // verus!
