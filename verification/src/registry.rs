use vstd::prelude::*;

use crate::interp::{Interp, RegVal, SlotEntry};
use crate::value::Value;

verus! {

/// The shared list of slot releases pending interpreter-context access.
///
/// A detached key dropped on another native thread cannot release its slot
/// directly (release requires re-entering the interpreter), so it enqueues
/// the slot here; the interpreter's owner drains the queue when convenient.
/// Once the interpreter is gone the queue stops accepting entries.
#[derive(Debug)]
pub struct UnrefQueue {
    pub ids: Vec<usize>,
    pub accepting: bool,
}

impl UnrefQueue {
    /// Every queued slot index is in range for a registry of `n_slots`.
    pub open spec fn wf(self, n_slots: int) -> bool {
        forall|i: int| 0 <= i < self.ids.len() ==> (#[trigger] self.ids[i]) < n_slots
    }
}

/// A detached, thread-transferable handle to a registry slot.
///
/// Unlike a counted reference it does not hold the interpreter handle, so it
/// may cross native thread boundaries; the price is that release is deferred
/// through the owning interpreter's [`UnrefQueue`] rather than immediate.
#[derive(Debug)]
pub struct RegistryKey {
    index: usize,
}

impl RegistryKey {
    /// The registry slot this key addresses.
    pub closed spec fn id(self) -> int {
        self.index as int
    }

    /// The registry slot this key addresses.
    pub fn index(&self) -> (i: usize)
        ensures
            i as int == self.id(),
    {
        self.index
    }

    pub(crate) fn from_index(index: usize) -> (key: RegistryKey)
        ensures
            key.id() == index as int,
    {
        RegistryKey { index }
    }

    /// Give the key up without interpreter access: its slot is queued for a
    /// deferred release, unless the interpreter is already gone.
    pub fn dispose(self, queue: &mut UnrefQueue)
        ensures
            old(queue).accepting ==> final(queue).ids@ == old(queue).ids@.push(
                (self.id() as usize),
            ),
            old(queue).accepting ==> final(queue).accepting,
            !old(queue).accepting ==> *final(queue) == *old(queue),
    {
        if queue.accepting {
            queue.ids.push(self.index);
        }
    }

    /// Destroy the key without queueing a release, handing its slot index to
    /// the caller (who takes over the release duty).
    pub fn take(self) -> (i: usize)
        ensures
            i as int == self.id(),
    {
        self.index
    }
}

/// Release one reference of slot `id`: the last reference frees the slot.
/// Out-of-range or vacant slots are left alone.
pub open spec fn release_one(slots: Seq<SlotEntry>, id: int) -> Seq<SlotEntry> {
    if 0 <= id < slots.len() && !(slots[id].val is Free) {
        if slots[id].refs > 1 {
            slots.update(id, SlotEntry { refs: (slots[id].refs - 1) as u64, val: slots[id].val })
        } else {
            slots.update(id, SlotEntry { refs: 0u64, val: RegVal::Free })
        }
    } else {
        slots
    }
}

/// Release one reference for each queued slot, in queue order.
pub open spec fn release_seq(slots: Seq<SlotEntry>, ids: Seq<usize>) -> Seq<SlotEntry>
    decreases ids.len(),
{
    if ids.len() == 0 {
        slots
    } else {
        release_seq(release_one(slots, ids[0] as int), ids.skip(1))
    }
}

/// Appending one release to the queue is the same as releasing it after the
/// rest of the queue.
pub proof fn lemma_release_seq_push(slots: Seq<SlotEntry>, ids: Seq<usize>, x: usize)
    ensures
        release_seq(slots, ids.push(x)) == release_one(release_seq(slots, ids), x as int),
    decreases ids.len(),
{
    if ids.len() == 0 {
        assert(ids.push(x)[0] == x);
        assert(ids.push(x).skip(1) =~= Seq::<usize>::empty());
        assert(release_seq(slots, ids.push(x)) == release_seq(
            release_one(slots, x as int),
            ids.push(x).skip(1),
        ));
        assert(release_seq(slots, ids) == slots);
    } else {
        assert(ids.push(x)[0] == ids[0]);
        assert(ids.push(x).skip(1) =~= ids.skip(1).push(x));
        assert(release_seq(slots, ids.push(x)) == release_seq(
            release_one(slots, ids[0] as int),
            ids.skip(1).push(x),
        ));
        lemma_release_seq_push(release_one(slots, ids[0] as int), ids.skip(1), x);
    }
}

impl Interp {
    /// Release one reference of slot `id`, leaving vacant or out-of-range
    /// slots alone.
    pub(crate) fn release_slot(&mut self, id: usize)
        requires
            old(self).wf(),
        ensures
            final(self).wf(),
            old(self).same_but_slots(*final(self)),
            final(self).slots@ == release_one(old(self).slots@, id as int),
    {
        if id < self.slots.len() {
            let vacant = match &self.slots[id].val {
                RegVal::Free => true,
                _ => false,
            };
            if !vacant {
                let entry = &mut self.slots[id];
                if entry.refs > 1 {
                    entry.refs = entry.refs - 1;
                } else {
                    entry.refs = 0;
                    entry.val = RegVal::Free;
                }
            }
        }
        proof {
            assert(self.slots@ =~= release_one(old(self).slots@, id as int));
        }
    }

    /// Detach `v` into a thread-transferable key holding one reference.
    pub fn create_registry_value(&mut self, v: Value) -> (key: RegistryKey)
        requires
            old(self).wf(),
        ensures
            final(self).wf(),
            old(self).same_but_slots(*final(self)),
            old(self).same_slots_except(*final(self), key.id()),
            final(self).valid(key.id()),
            final(self).slots[key.id()] == (SlotEntry { refs: 1u64, val: RegVal::Data(v) }),
    {
        let i = self.occupy_slot(RegVal::Data(v));
        RegistryKey::from_index(i)
    }

    /// Release a key's slot immediately; requires interpreter access.
    pub fn remove_registry_value(&mut self, key: RegistryKey)
        requires
            old(self).wf(),
        ensures
            final(self).wf(),
            old(self).same_but_slots(*final(self)),
            final(self).slots@ == release_one(old(self).slots@, key.id()),
    {
        let i = key.take();
        self.release_slot(i);
    }

    /// Drain the deferred-release queue, releasing one reference per queued
    /// slot in queue order.
    pub fn expire_registry_values(&mut self)
        requires
            old(self).wf(),
        ensures
            final(self).wf(),
            final(self).stack == old(self).stack,
            final(self).stack_limit == old(self).stack_limit,
            final(self).mailbox == old(self).mailbox,
            final(self).slots@ == release_seq(old(self).slots@, old(self).unref.ids@),
            final(self).unref.ids.len() == 0,
            final(self).unref.accepting == old(self).unref.accepting,
    {
        let n = self.unref.ids.len();
        let mut k: usize = 0;
        while k < n
            invariant
                self.wf(),
                k <= n,
                self.unref == old(self).unref,
                n == self.unref.ids.len(),
                self.stack == old(self).stack,
                self.stack_limit == old(self).stack_limit,
                self.mailbox == old(self).mailbox,
                self.slots@ == release_seq(old(self).slots@, self.unref.ids@.take(k as int)),
            decreases n - k,
        {
            let id = self.unref.ids[k];
            proof {
                assert(self.unref.ids@.take(k + 1) =~= self.unref.ids@.take(k as int).push(id));
                lemma_release_seq_push(old(self).slots@, self.unref.ids@.take(k as int), id);
            }
            self.release_slot(id);
            k = k + 1;
        }
        proof {
            assert(self.unref.ids@.take(n as int) =~= self.unref.ids@);
        }
        self.unref.ids.clear();
    }
}

} // verus!
