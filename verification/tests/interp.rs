use interp_bridge::interp::{Interp, RegVal};
use interp_bridge::value::{is_poll_pending, Value};

#[test]
fn refcounting_releases_on_last_drop() {
    let mut interp = Interp::new(16);

    let r = interp.create_ref(Value::Int(10));
    let i = r.index();
    assert_eq!(interp.slots[i].refs, 1);

    // Cloning is a count increment on the same slot, never a copy.
    let r2 = interp.clone_ref(&r);
    assert_eq!(r2.index(), i);
    assert_eq!(interp.slots[i].refs, 2);

    // Dropping one reference keeps the slot alive...
    interp.drop_ref(r);
    assert_eq!(interp.slots[i].refs, 1);
    assert!(matches!(interp.slots[i].val, RegVal::Data(Value::Int(10))));

    // ...dropping the last releases it for the collector.
    interp.drop_ref(r2);
    assert_eq!(interp.slots[i].refs, 0);
    assert!(matches!(interp.slots[i].val, RegVal::Free));

    // A vacant slot is reused by the next creation.
    let r3 = interp.create_ref(Value::Bool(true));
    assert_eq!(r3.index(), i);
}

#[test]
fn raw_equality_of_references() {
    let mut interp = Interp::new(16);

    let a = interp.create_ref(Value::Int(5));
    let b = interp.create_ref(Value::Int(5));
    let c = interp.create_ref(Value::Int(6));

    // A slot is raw-equal to itself; plain values compare by value.
    assert!(interp.ref_eq(&a, &a));
    assert!(interp.ref_eq(&a, &b));
    assert!(!interp.ref_eq(&a, &c));
    assert_eq!(interp.ref_value(&a), Value::Int(5));
}

#[test]
fn registry_key_defers_release() {
    let mut interp = Interp::new(16);

    let key = interp.create_registry_value(Value::Int(7));
    let i = key.index();
    assert!(matches!(interp.slots[i].val, RegVal::Data(Value::Int(7))));

    // Dropped away from the interpreter thread, the key only queues its
    // slot; the value stays live until the queue is drained under
    // interpreter access.
    key.dispose(&mut interp.unref);
    assert!(matches!(interp.slots[i].val, RegVal::Data(Value::Int(7))));
    assert_eq!(interp.unref.ids, vec![i]);

    interp.expire_registry_values();
    assert!(matches!(interp.slots[i].val, RegVal::Free));
    assert!(interp.unref.ids.is_empty());
}

#[test]
fn expire_releases_one_reference_per_entry() {
    let mut interp = Interp::new(16);

    // A queued release drops one reference only: a slot that someone else
    // still counts stays occupied.
    let key = interp.create_registry_value(Value::Int(4));
    let i = key.index();
    interp.slots[i].refs = 2;

    key.dispose(&mut interp.unref);
    interp.expire_registry_values();
    assert_eq!(interp.slots[i].refs, 1);
    assert!(matches!(interp.slots[i].val, RegVal::Data(Value::Int(4))));

    // The last queued release frees the slot.
    interp.unref.ids.push(i);
    interp.expire_registry_values();
    assert_eq!(interp.slots[i].refs, 0);
    assert!(matches!(interp.slots[i].val, RegVal::Free));
}

#[test]
fn registry_key_immediate_remove_and_take() {
    let mut interp = Interp::new(16);

    let key = interp.create_registry_value(Value::Int(1));
    let i = key.index();
    interp.remove_registry_value(key);
    assert!(matches!(interp.slots[i].val, RegVal::Free));

    // `take` hands the slot over without queueing anything.
    let key2 = interp.create_registry_value(Value::Int(2));
    let j = key2.take();
    assert!(matches!(interp.slots[j].val, RegVal::Data(Value::Int(2))));
    assert!(interp.unref.ids.is_empty());

    // A closed queue accepts nothing: disposal after the interpreter is
    // gone is a no-op.
    let key3 = interp.create_registry_value(Value::Int(3));
    let mut closed = interp_bridge::registry::UnrefQueue { ids: Vec::new(), accepting: false };
    key3.dispose(&mut closed);
    assert!(closed.ids.is_empty());
}

#[test]
fn stack_and_registry_interplay() {
    let mut interp = Interp::new(2);

    // Pulling a value off the execution stack parks it in a counted slot.
    interp.stack.push(Value::Int(12));
    let r = interp.pop_ref();
    assert!(interp.stack.is_empty());
    assert!(matches!(interp.slots[r.index()].val, RegVal::Data(Value::Int(12))));

    // Pushing it back copies the value without touching the slot.
    assert!(interp.push_ref(&r));
    assert_eq!(interp.stack, vec![Value::Int(12)]);
    assert!(matches!(interp.slots[r.index()].val, RegVal::Data(Value::Int(12))));

    // A full stack refuses the push.
    interp.stack.push(Value::Nil);
    assert!(!interp.push_ref(&r));
    assert_eq!(interp.stack.len(), 2);
}

#[test]
fn waker_mailbox_single_occupancy() {
    let mut interp = Interp::new(16);
    assert_eq!(interp.mailbox, None);

    interp.install_waker(5);
    assert_eq!(interp.mailbox, Some(5));
    // A newer install replaces the occupant; removal vacates it.
    interp.install_waker(6);
    assert_eq!(interp.mailbox, Some(6));
    interp.remove_waker();
    assert_eq!(interp.mailbox, None);
}

#[test]
fn pending_marker_shape() {
    assert!(is_poll_pending(&vec![Value::Pending]));
    assert!(!is_poll_pending(&vec![Value::Int(1)]));
    assert!(!is_poll_pending(&vec![]));
    assert!(!is_poll_pending(&vec![Value::Pending, Value::Pending]));
}
