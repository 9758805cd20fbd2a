use interp_bridge::error::{Error, Fault};
use interp_bridge::pcall::{protected_call, RawOp};
use interp_bridge::interp::Interp;
use interp_bridge::value::Value;

fn ints(vals: &[i64]) -> Vec<Value> {
    vals.iter().map(|v| Value::Int(*v)).collect()
}

#[test]
fn protected_call_balances_stack_on_success() {
    let mut interp = Interp::new(16);
    interp.stack.push(Value::Int(99));
    let entry = interp.stack.len();

    let r = protected_call(&mut interp, ints(&[1, 2, 3]), RawOp::AddInts, 1);
    assert_eq!(r.unwrap(), ints(&[6]));
    assert_eq!(interp.stack.len(), entry);
    assert_eq!(interp.stack[0], Value::Int(99));
}

#[test]
fn protected_call_balances_stack_on_fault() {
    let mut interp = Interp::new(16);
    interp.stack.push(Value::Bool(false));
    let entry = interp.stack.len();

    // An interpreter-level error is captured at the boundary, never
    // unwinding through native frames, and the stack is restored.
    let r = protected_call(&mut interp, vec![], RawOp::Raise(Fault::AssertionFailed), 0);
    assert_eq!(
        r.unwrap_err(),
        Error::RuntimeError { fault: Fault::AssertionFailed, traceback: None }
    );
    assert_eq!(interp.stack.len(), entry);

    let r = protected_call(&mut interp, ints(&[1]), RawOp::AddInts, 1);
    assert!(r.is_ok());
    let r = protected_call(&mut interp, vec![Value::Int(1), Value::Nil], RawOp::AddInts, 1);
    assert_eq!(
        r.unwrap_err(),
        Error::RuntimeError { fault: Fault::ArithOnNonInteger, traceback: None }
    );
    assert_eq!(interp.stack.len(), entry);
}

#[test]
fn protected_call_balances_stack_on_overflow() {
    let mut interp = Interp::new(4);
    interp.stack.push(Value::Int(1));
    let entry = interp.stack.len();

    // No headroom for three arguments plus a result: the native error
    // comes before any re-entry, and nothing was pushed.
    let r = protected_call(&mut interp, ints(&[1, 2, 3]), RawOp::AddInts, 1);
    assert_eq!(r.unwrap_err(), Error::StackOverflow);
    assert_eq!(interp.stack.len(), entry);

    // Two arguments still fit (two pushed plus one result slot).
    let r = protected_call(&mut interp, ints(&[1, 2]), RawOp::AddInts, 1);
    assert_eq!(r.unwrap(), ints(&[3]));
    assert_eq!(interp.stack.len(), entry);
}

#[test]
fn protected_call_adjusts_result_count() {
    let mut interp = Interp::new(16);

    // Missing results are filled with nil, surplus ones dropped.
    let r = protected_call(&mut interp, ints(&[4, 5]), RawOp::AddInts, 3);
    assert_eq!(r.unwrap(), vec![Value::Int(9), Value::Nil, Value::Nil]);
    let r = protected_call(&mut interp, ints(&[4, 5]), RawOp::AddInts, 0);
    assert_eq!(r.unwrap(), vec![]);
}

#[test]
fn protected_call_reads_registry_slots() {
    let mut interp = Interp::new(16);
    let handle = interp.create_ref(Value::Int(31));

    let r = protected_call(&mut interp, vec![], RawOp::PushSlot(handle.index()), 1);
    assert_eq!(r.unwrap(), ints(&[31]));

    // A vacant slot is an interpreter-level fault, surfaced natively.
    let r = protected_call(&mut interp, vec![], RawOp::PushSlot(9), 1);
    assert_eq!(
        r.unwrap_err(),
        Error::RuntimeError { fault: Fault::VacantSlot, traceback: None }
    );
    assert_eq!(interp.stack.len(), 0);
}
