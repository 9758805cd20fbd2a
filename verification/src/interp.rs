use vstd::prelude::*;

use crate::coroutine::CoState;
use crate::registry::UnrefQueue;
use crate::scope::{CallbackSlot, UserdataSlot};
use crate::value::Value;

verus! {

/// What a registry slot holds.
#[derive(Debug)]
pub enum RegVal {
    /// The slot is vacant and may be reused.
    Free,
    /// A plain value pulled off the execution stack into native code.
    Data(Value),
    /// A coroutine with its own execution state.
    Co(CoState),
    /// A native callback registered through a scope.
    Callback(CallbackSlot),
    /// A native userdata object registered through a scope.
    Userdata(UserdataSlot),
}

/// One registry slot: its reference count and its contents.
///
/// The count is keyed by the slot, not copied into handles: cloning a handle
/// increments it, dropping one decrements it, and the slot is released back
/// to the interpreter's collector when it reaches zero.
#[derive(Debug)]
pub struct SlotEntry {
    pub refs: u64,
    pub val: RegVal,
}

impl SlotEntry {
    pub open spec fn wf(self) -> bool {
        &&& (self.val is Free <==> self.refs == 0)
        &&& (self.val matches RegVal::Co(co) ==> co.wf())
    }
}

/// The modelled interpreter instance: one registry of counted slots, one
/// execution stack with a fixed headroom limit, the single-occupancy waker
/// mailbox, and the queue of deferred slot releases.
///
/// The instance is single-owner and non-reentrant: every mutation funnels
/// through one `&mut` borrow, and a resume already in flight is visible as a
/// coroutine in the `Running` primitive state.
#[derive(Debug)]
pub struct Interp {
    pub slots: Vec<SlotEntry>,
    pub stack: Vec<Value>,
    pub stack_limit: usize,
    /// The well-known registry slot through which a task's wake handle is
    /// passed to asynchronous primitives for the duration of one resume.
    pub mailbox: Option<u64>,
    /// Slot releases queued by detached keys on other threads, awaiting
    /// interpreter-context access.
    pub unref: UnrefQueue,
}

/// A counted reference to a registry slot.  Valid only together with the
/// interpreter handle that owns the slot.
#[derive(Debug)]
pub struct HandleRef {
    index: usize,
}

impl HandleRef {
    /// The registry slot this handle references.
    pub closed spec fn id(self) -> int {
        self.index as int
    }

    /// The registry slot this handle references.
    pub fn index(&self) -> (i: usize)
        ensures
            i as int == self.id(),
    {
        self.index
    }

    pub(crate) fn from_index(index: usize) -> (r: HandleRef)
        ensures
            r.id() == index as int,
    {
        HandleRef { index }
    }
}

impl Interp {
    pub open spec fn wf(self) -> bool {
        &&& self.stack.len() <= self.stack_limit
        &&& forall|i: int| 0 <= i < self.slots.len() ==> (#[trigger] self.slots[i]).wf()
        &&& self.unref.wf(self.slots.len() as int)
    }

    /// The slot `id` is in range and occupied.
    pub open spec fn valid(self, id: int) -> bool {
        0 <= id < self.slots.len() && !(self.slots[id].val is Free)
    }

    /// The registry and everything else but the `slots` field agree.
    pub open spec fn same_but_slots(self, other: Interp) -> bool {
        &&& self.stack == other.stack
        &&& self.stack_limit == other.stack_limit
        &&& self.mailbox == other.mailbox
        &&& self.unref == other.unref
    }

    /// All slots other than `id` agree (the registry may have grown by one).
    pub open spec fn same_slots_except(self, other: Interp, id: int) -> bool {
        &&& other.slots.len() == self.slots.len() || other.slots.len() == self.slots.len() + 1
        &&& forall|j: int|
            0 <= j < other.slots.len() && j != id && j < self.slots.len() ==> other.slots[j]
                == #[trigger] self.slots[j]
    }

    /// A fresh interpreter instance with an empty registry and stack.
    pub fn new(stack_limit: usize) -> (interp: Interp)
        ensures
            interp.wf(),
            interp.slots.len() == 0,
            interp.stack.len() == 0,
            interp.stack_limit == stack_limit,
            interp.mailbox is None,
            interp.unref.ids.len() == 0,
            interp.unref.accepting,
    {
        Interp {
            slots: Vec::new(),
            stack: Vec::new(),
            stack_limit,
            mailbox: None,
            unref: UnrefQueue { ids: Vec::new(), accepting: true },
        }
    }

    /// Store `val` in a vacant slot (reusing one if possible) with one
    /// reference, and report its index.
    pub(crate) fn occupy_slot(&mut self, val: RegVal) -> (i: usize)
        requires
            old(self).wf(),
            (SlotEntry { refs: 1u64, val }).wf(),
        ensures
            final(self).wf(),
            old(self).same_but_slots(*final(self)),
            old(self).same_slots_except(*final(self), i as int),
            final(self).valid(i as int),
            final(self).slots[i as int] == (SlotEntry { refs: 1u64, val }),
            i as int == old(self).slots.len() || old(self).slots[i as int].val is Free,
    {
        match self.find_vacant() {
            Some(i) => {
                self.slots.set(i, SlotEntry { refs: 1, val });
                i
            },
            None => {
                let n = self.slots.len();
                self.slots.push(SlotEntry { refs: 1, val });
                n
            },
        }
    }

    /// Look for a vacant slot to reuse.
    fn find_vacant(&self) -> (r: Option<usize>)
        ensures
            r matches Some(i) ==> i < self.slots.len() && self.slots[i as int].val is Free,
    {
        let n = self.slots.len();
        let mut k: usize = 0;
        while k < n
            invariant
                n == self.slots.len(),
                k <= n,
            decreases n - k,
        {
            let vacant = match &self.slots[k].val {
                RegVal::Free => true,
                _ => false,
            };
            if vacant {
                return Some(k);
            }
            k = k + 1;
        }
        None
    }

    /// Pull a plain value into native code as a counted reference.
    pub fn create_ref(&mut self, v: Value) -> (r: HandleRef)
        requires
            old(self).wf(),
        ensures
            final(self).wf(),
            old(self).same_but_slots(*final(self)),
            old(self).same_slots_except(*final(self), r.id()),
            final(self).valid(r.id()),
            final(self).slots[r.id()] == (SlotEntry { refs: 1u64, val: RegVal::Data(v) }),
    {
        let i = self.occupy_slot(RegVal::Data(v));
        HandleRef { index: i }
    }

    /// Pull the value on top of the execution stack into native code as a
    /// counted reference, popping it.
    pub fn pop_ref(&mut self) -> (r: HandleRef)
        requires
            old(self).wf(),
            old(self).stack.len() > 0,
        ensures
            final(self).wf(),
            final(self).stack@ == old(self).stack@.drop_last(),
            final(self).stack_limit == old(self).stack_limit,
            final(self).mailbox == old(self).mailbox,
            final(self).unref == old(self).unref,
            old(self).same_slots_except(*final(self), r.id()),
            final(self).valid(r.id()),
            final(self).slots[r.id()] == (SlotEntry {
                refs: 1u64,
                val: RegVal::Data(old(self).stack@.last()),
            }),
    {
        let v = match self.stack.pop() {
            Some(v) => v,
            None => vstd::pervasive::unreached(),
        };
        let i = self.occupy_slot(RegVal::Data(v));
        HandleRef { index: i }
    }

    /// Push the plain value a handle references back onto the execution
    /// stack.
    pub fn push_ref(&mut self, r: &HandleRef) -> (ok: bool)
        requires
            old(self).wf(),
            old(self).valid(r.id()),
            old(self).slots[r.id()].val is Data,
        ensures
            final(self).wf(),
            final(self).slots == old(self).slots,
            final(self).stack_limit == old(self).stack_limit,
            final(self).mailbox == old(self).mailbox,
            final(self).unref == old(self).unref,
            old(self).stack.len() < old(self).stack_limit ==> ok && final(self).stack@ == old(
                self,
            ).stack@.push(old(self).slots[r.id()].val->Data_0),
            old(self).stack.len() >= old(self).stack_limit ==> !ok && final(self).stack@ == old(
                self,
            ).stack@,
    {
        if self.stack.len() >= self.stack_limit {
            return false;
        }
        let v = self.ref_value(r);
        self.stack.push(v);
        true
    }

    /// Clone a handle: O(1), never fails, increments the slot's count.
    pub fn clone_ref(&mut self, r: &HandleRef) -> (r2: HandleRef)
        requires
            old(self).wf(),
            old(self).valid(r.id()),
            old(self).slots[r.id()].refs < u64::MAX,
        ensures
            final(self).wf(),
            old(self).same_but_slots(*final(self)),
            final(self).slots.len() == old(self).slots.len(),
            r2.id() == r.id(),
            final(self).slots[r.id()] == (SlotEntry {
                refs: (old(self).slots[r.id()].refs + 1) as u64,
                val: old(self).slots[r.id()].val,
            }),
            forall|j: int|
                0 <= j < old(self).slots.len() && j != r.id() ==> final(self).slots[j]
                    == #[trigger] old(self).slots[j],
    {
        let i = r.index();
        let entry = &mut self.slots[i];
        entry.refs = entry.refs + 1;
        HandleRef { index: i }
    }

    /// Drop a handle: decrements the slot's count and, for the last
    /// reference, releases the slot back to the interpreter's collector.
    pub fn drop_ref(&mut self, r: HandleRef)
        requires
            old(self).wf(),
            old(self).valid(r.id()),
        ensures
            final(self).wf(),
            old(self).same_but_slots(*final(self)),
            final(self).slots.len() == old(self).slots.len(),
            old(self).slots[r.id()].refs > 1 ==> final(self).slots[r.id()] == (SlotEntry {
                refs: (old(self).slots[r.id()].refs - 1) as u64,
                val: old(self).slots[r.id()].val,
            }),
            old(self).slots[r.id()].refs == 1 ==> final(self).slots[r.id()] == (SlotEntry {
                refs: 0u64,
                val: RegVal::Free,
            }),
            forall|j: int|
                0 <= j < old(self).slots.len() && j != r.id() ==> final(self).slots[j]
                    == #[trigger] old(self).slots[j],
    {
        let i = r.index();
        let entry = &mut self.slots[i];
        if entry.refs == 1 {
            entry.refs = 0;
            entry.val = RegVal::Free;
        } else {
            entry.refs = entry.refs - 1;
        }
    }

    /// The value a data slot holds.
    pub fn ref_value(&self, r: &HandleRef) -> (v: Value)
        requires
            self.wf(),
            self.valid(r.id()),
            self.slots[r.id()].val is Data,
        ensures
            self.slots[r.id()].val == RegVal::Data(v),
    {
        let i = r.index();
        match &self.slots[i].val {
            RegVal::Data(v) => *v,
            _ => vstd::pervasive::unreached(),
        }
    }

    /// Raw identity equality of two referenced values: true for the same
    /// slot, and for plain values exactly when the values are equal.
    pub fn ref_eq(&self, a: &HandleRef, b: &HandleRef) -> (eq: bool)
        requires
            self.wf(),
            self.valid(a.id()),
            self.valid(b.id()),
        ensures
            eq == raw_eq(*self, a.id(), b.id()),
    {
        let i = a.index();
        let j = b.index();
        if i == j {
            true
        } else {
            match (&self.slots[i].val, &self.slots[j].val) {
                (RegVal::Data(x), RegVal::Data(y)) => *x == *y,
                _ => false,
            }
        }
    }

    /// Install a task's wake handle into the waker mailbox for the duration
    /// of one resume.
    pub fn install_waker(&mut self, waker: u64)
        requires
            old(self).wf(),
        ensures
            final(self).wf(),
            *final(self) == (Interp { mailbox: Some(waker), ..*old(self) }),
    {
        self.mailbox = Some(waker);
    }

    /// Empty the waker mailbox; done unconditionally after every resume so
    /// at most one waker is ever visible to interpreter code.
    pub fn remove_waker(&mut self)
        requires
            old(self).wf(),
        ensures
            final(self).wf(),
            *final(self) == (Interp { mailbox: None, ..*old(self) }),
    {
        self.mailbox = None;
    }
}

/// Identity equality as the interpreter defines it on registry slots: the
/// same slot is always equal to itself; two plain values compare by value.
pub open spec fn raw_eq(interp: Interp, a: int, b: int) -> bool {
    ||| a == b
    ||| {
        &&& interp.slots[a].val matches RegVal::Data(x)
        &&& interp.slots[b].val matches RegVal::Data(y)
        &&& x == y
    }
}

} // verus!
