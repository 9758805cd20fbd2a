use interp_bridge::coroutine::{CoBody, CoOp, CoPrim};
use interp_bridge::error::{Error, Fault};
use interp_bridge::interp::{Interp, RegVal};
use interp_bridge::thread::ThreadStatus;
use interp_bridge::value::Value;

fn ints(vals: &[i64]) -> Vec<Value> {
    vals.iter().map(|v| Value::Int(*v)).collect()
}

#[test]
fn test_thread() {
    let mut interp = Interp::new(64);

    // A coroutine that seeds its sum from the first resume, then four times
    // adds the next resume argument and yields the running sum, returning
    // the final sum from its last resume.
    let thread = interp.create_thread(CoBody {
        steps: vec![CoOp::AddArg, CoOp::AddArg, CoOp::AddArg, CoOp::AddArg],
        repeat: false,
        finish: CoOp::AddArg,
    });

    assert_eq!(thread.status(&interp), ThreadStatus::Resumable);
    assert_eq!(thread.resume(&mut interp, ints(&[0])).unwrap(), ints(&[0]));
    assert_eq!(thread.status(&interp), ThreadStatus::Resumable);
    assert_eq!(thread.resume(&mut interp, ints(&[1])).unwrap(), ints(&[1]));
    assert_eq!(thread.status(&interp), ThreadStatus::Resumable);
    assert_eq!(thread.resume(&mut interp, ints(&[2])).unwrap(), ints(&[3]));
    assert_eq!(thread.status(&interp), ThreadStatus::Resumable);
    assert_eq!(thread.resume(&mut interp, ints(&[3])).unwrap(), ints(&[6]));
    assert_eq!(thread.status(&interp), ThreadStatus::Resumable);
    assert_eq!(thread.resume(&mut interp, ints(&[4])).unwrap(), ints(&[10]));
    assert_eq!(thread.status(&interp), ThreadStatus::Unresumable);

    // An accumulator that never returns: it keeps adding each resume
    // argument and yielding the running sum.
    let accumulate = interp.create_thread(CoBody {
        steps: vec![CoOp::AddArg],
        repeat: true,
        finish: CoOp::AddArg,
    });

    for i in 0..4 {
        accumulate.resume(&mut interp, ints(&[i])).unwrap();
    }
    assert_eq!(accumulate.resume(&mut interp, ints(&[4])).unwrap(), ints(&[10]));
    assert_eq!(accumulate.status(&interp), ThreadStatus::Resumable);
    // Arithmetic on a non-integer argument raises inside the coroutine.
    assert!(accumulate.resume(&mut interp, vec![Value::Nil]).is_err());
    assert_eq!(accumulate.status(&interp), ThreadStatus::Error);

    // A coroutine that yields 42 forever, ignoring its arguments.
    let thread = interp.create_thread(CoBody {
        steps: vec![CoOp::Produce(42)],
        repeat: true,
        finish: CoOp::Produce(42),
    });
    assert_eq!(thread.status(&interp), ThreadStatus::Resumable);
    assert_eq!(thread.resume(&mut interp, vec![]).unwrap(), ints(&[42]));

    // A coroutine that checks its first argument is 42, yields 123, checks
    // the next argument is 43, and returns 987.
    let thread = interp.create_thread(CoBody {
        steps: vec![CoOp::ExpectArg { expected: 42, out: 123 }],
        repeat: false,
        finish: CoOp::ExpectArg { expected: 43, out: 987 },
    });

    assert_eq!(thread.resume(&mut interp, ints(&[42])).unwrap(), ints(&[123]));
    assert_eq!(thread.resume(&mut interp, ints(&[43])).unwrap(), ints(&[987]));

    match thread.resume(&mut interp, vec![]) {
        Err(Error::CoroutineInactive) => {},
        Err(_) => panic!("resuming dead coroutine error is not CoroutineInactive kind"),
        _ => panic!("resuming dead coroutine did not return error"),
    }
}

#[test]
fn coroutine_from_closure() {
    let mut interp = Interp::new(16);

    // A coroutine wrapping a main function that takes nothing and returns
    // nothing: its first resume immediately returns no values.
    let thrd = interp.create_thread(CoBody {
        steps: vec![],
        repeat: false,
        finish: CoOp::ProduceNothing,
    });

    assert_eq!(thrd.resume(&mut interp, vec![]).unwrap(), vec![]);
    assert_eq!(thrd.status(&interp), ThreadStatus::Unresumable);
}

#[test]
fn dead_thread_keeps_failing() {
    let mut interp = Interp::new(16);

    // A thread that errors on its first resume stays in `Error` status and
    // every further resume fails without executing interpreter code.
    let thread = interp.create_thread(CoBody {
        steps: vec![CoOp::AddArg],
        repeat: true,
        finish: CoOp::AddArg,
    });
    let err = thread.resume(&mut interp, vec![Value::Bool(true)]).unwrap_err();
    assert_eq!(
        err,
        Error::RuntimeError { fault: Fault::ArithOnNonInteger, traceback: Some(0) }
    );
    assert_eq!(thread.status(&interp), ThreadStatus::Error);

    let before = match &interp.slots[thread.index()].val {
        RegVal::Co(co) => (co.pc, co.acc, co.prim),
        _ => panic!("thread slot does not hold a coroutine"),
    };
    assert_eq!(thread.resume(&mut interp, ints(&[1])).unwrap_err(), Error::CoroutineInactive);
    assert_eq!(thread.resume(&mut interp, vec![]).unwrap_err(), Error::CoroutineInactive);
    let after = match &interp.slots[thread.index()].val {
        RegVal::Co(co) => (co.pc, co.acc, co.prim),
        _ => panic!("thread slot does not hold a coroutine"),
    };
    assert_eq!(before, after);
    assert_eq!(thread.status(&interp), ThreadStatus::Error);
}

#[test]
fn overlapping_resume_rejected() {
    let mut interp = Interp::new(16);

    // A second logical call site that observes a coroutine mid-resume (its
    // primitive state is `Running`) is rejected outright: the two resumes
    // are serialized, never interleaved.
    let thread = interp.create_thread(CoBody {
        steps: vec![CoOp::Produce(7)],
        repeat: true,
        finish: CoOp::Produce(7),
    });
    let i = thread.index();
    if let RegVal::Co(co) = &mut interp.slots[i].val {
        co.prim = CoPrim::Running;
    } else {
        panic!("thread slot does not hold a coroutine");
    }

    assert_eq!(thread.status(&interp), ThreadStatus::Unresumable);
    assert_eq!(thread.resume(&mut interp, vec![]).unwrap_err(), Error::CoroutineInactive);
    // The in-flight coroutine was not touched.
    match &interp.slots[i].val {
        RegVal::Co(co) => assert_eq!(co.prim, CoPrim::Running),
        _ => panic!("thread slot does not hold a coroutine"),
    }

    // Once the first resume finishes (the coroutine suspends again), the
    // second call site proceeds.
    if let RegVal::Co(co) = &mut interp.slots[i].val {
        co.prim = CoPrim::Suspended;
    }
    assert_eq!(thread.resume(&mut interp, vec![]).unwrap(), ints(&[7]));
}

#[test]
fn resume_stack_overflow_detected() {
    let mut interp = Interp::new(2);

    let thread = interp.create_thread(CoBody {
        steps: vec![CoOp::Produce(1)],
        repeat: true,
        finish: CoOp::Produce(1),
    });
    // Four arguments cannot fit a stack limited to two slots: the resume
    // fails fast with a native stack-overflow error, before re-entry.
    let err = thread.resume(&mut interp, ints(&[1, 2, 3, 4])).unwrap_err();
    assert_eq!(err, Error::StackOverflow);
    assert_eq!(thread.status(&interp), ThreadStatus::Resumable);
    // With few enough arguments the same thread resumes fine.
    assert_eq!(thread.resume(&mut interp, vec![]).unwrap(), ints(&[1]));
}

#[test]
fn accumulator_wraps_at_the_largest_integer() {
    let mut interp = Interp::new(16);
    let accumulate = interp.create_thread(CoBody {
        steps: vec![CoOp::AddArg],
        repeat: true,
        finish: CoOp::AddArg,
    });
    // The interpreter's integers wrap around on overflow.
    assert_eq!(accumulate.resume(&mut interp, ints(&[i64::MAX])).unwrap(), ints(&[i64::MAX]));
    assert_eq!(accumulate.resume(&mut interp, ints(&[1])).unwrap(), ints(&[i64::MIN]));
    assert_eq!(accumulate.status(&interp), ThreadStatus::Resumable);
}

#[test]
fn thread_equality_is_identity() {
    let mut interp = Interp::new(16);
    let body = || CoBody {
        steps: vec![CoOp::Produce(1)],
        repeat: false,
        finish: CoOp::ProduceNothing,
    };
    let a = interp.create_thread(body());
    let b = interp.create_thread(body());
    assert!(a.equals(&a));
    assert!(!a.equals(&b));
}

#[test]
fn fresh_thread_state() {
    let mut interp = Interp::new(16);
    let t = interp.create_thread(CoBody {
        steps: vec![CoOp::AddConst(5)],
        repeat: false,
        finish: CoOp::AddConst(0),
    });
    match &interp.slots[t.index()].val {
        RegVal::Co(co) => {
            assert_eq!(co.pc, 0);
            assert_eq!(co.acc, 0);
            assert_eq!(co.prim, CoPrim::Fresh);
            assert_eq!(co.parked_waker, None);
        },
        _ => panic!("thread slot does not hold a coroutine"),
    }
}
