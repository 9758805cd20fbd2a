use interp_bridge::bridge::{FuturePoll, StreamPoll};
use interp_bridge::coroutine::{CoBody, CoOp};
use interp_bridge::error::{Error, Fault};
use interp_bridge::interp::{Interp, RegVal};
use interp_bridge::value::Value;

fn ints(vals: &[i64]) -> Vec<Value> {
    vals.iter().map(|v| Value::Int(*v)).collect()
}

#[test]
fn test_thread_stream() {
    let mut interp = Interp::new(64);

    // A coroutine that, seeded with 0, adds 1..=10 to its sum, yielding the
    // running sum after each addition, and finally returns the sum.
    let steps: Vec<CoOp> = (1..=10).map(CoOp::AddConst).collect();
    let thread = interp.create_thread(CoBody { steps, repeat: false, finish: CoOp::AddConst(0) });

    let mut s = thread.into_async(ints(&[0]));
    let mut sum: i64 = 0;
    let mut items: usize = 0;
    loop {
        match s.poll_next_step(&mut interp, 1) {
            StreamPoll::Item(vals) => {
                assert_eq!(vals.len(), 1);
                match vals[0] {
                    Value::Int(n) => sum += n,
                    _ => panic!("stream item is not an integer"),
                }
                items += 1;
            },
            StreamPoll::Finished => break,
            other => panic!("unexpected poll outcome {:?}", other),
        }
    }

    // Ten in-order items (1, 3, 6, ..., 55); the final return value (55
    // again) terminates the stream without a trailing item.
    assert_eq!(items, 10);
    assert_eq!(sum, 220);
    // Polling a spent stream keeps reporting termination.
    assert!(matches!(s.poll_next_step(&mut interp, 1), StreamPoll::Finished));
}

#[test]
fn stream_surfaces_error_then_ends() {
    let mut interp = Interp::new(16);

    // The second resume (no arguments) hits the argument-adding step and
    // raises; the stream delivers the error in place of an item, then
    // terminates.
    let thread = interp.create_thread(CoBody {
        steps: vec![CoOp::Produce(5), CoOp::AddArg],
        repeat: false,
        finish: CoOp::ProduceNothing,
    });
    let mut s = thread.into_async(vec![]);

    assert!(matches!(s.poll_next_step(&mut interp, 1), StreamPoll::Item(_)));
    match s.poll_next_step(&mut interp, 1) {
        StreamPoll::Failed(Error::RuntimeError { fault, .. }) => {
            assert_eq!(fault, Fault::ArithOnNonInteger);
        },
        other => panic!("unexpected poll outcome {:?}", other),
    }
    assert!(matches!(s.poll_next_step(&mut interp, 1), StreamPoll::Finished));
}

#[test]
fn future_discards_yields_and_returns_final() {
    let mut interp = Interp::new(16);

    // Driven as a single-shot future, the two yielded values are discarded
    // and only the final return resolves the future.
    let thread = interp.create_thread(CoBody {
        steps: vec![CoOp::Produce(1), CoOp::Produce(2)],
        repeat: false,
        finish: CoOp::Produce(987),
    });
    let mut f = thread.into_async(vec![]);

    assert!(matches!(f.poll_future_step(&mut interp, 1), FuturePoll::Yielded));
    assert!(matches!(f.poll_future_step(&mut interp, 1), FuturePoll::Yielded));
    match f.poll_future_step(&mut interp, 1) {
        FuturePoll::Ready(Ok(vals)) => assert_eq!(vals, ints(&[987])),
        other => panic!("unexpected poll outcome {:?}", other),
    }

    // Polling past the terminal state is a contract violation, reported as
    // a terminal error.
    match f.poll_future_step(&mut interp, 1) {
        FuturePoll::Ready(Err(Error::ThreadFinished)) => {},
        other => panic!("unexpected poll outcome {:?}", other),
    }
}

#[test]
fn future_on_errored_thread_reports_terminal_error() {
    let mut interp = Interp::new(16);
    let thread = interp.create_thread(CoBody {
        steps: vec![CoOp::AddArg],
        repeat: true,
        finish: CoOp::AddArg,
    });
    // Fail the thread first, outside the future.
    assert!(thread.resume(&mut interp, vec![Value::Nil]).is_err());

    let mut f = thread.into_async(vec![]);
    match f.poll_future_step(&mut interp, 1) {
        FuturePoll::Ready(Err(Error::ThreadFinished)) => {},
        other => panic!("unexpected poll outcome {:?}", other),
    }
}

#[test]
fn pending_marker_parks_the_waker() {
    let mut interp = Interp::new(16);

    // An asynchronous primitive: the first resume consults the waker
    // mailbox, parks the waker and suspends with the bridge's pending
    // marker; once the primitive's event arrives the next poll delivers
    // the following yield.
    let thread = interp.create_thread(CoBody {
        steps: vec![CoOp::AwaitEvent, CoOp::Produce(5)],
        repeat: false,
        finish: CoOp::ProduceNothing,
    });
    let idx = thread.index();
    let mut s = thread.into_async(vec![]);

    assert!(matches!(s.poll_next_step(&mut interp, 77), StreamPoll::Pending));
    // The waker crossed into the interpreter during the resume...
    match &interp.slots[idx].val {
        RegVal::Co(co) => assert_eq!(co.parked_waker, Some(77)),
        _ => panic!("thread slot does not hold a coroutine"),
    }
    // ...and the mailbox was vacated again after it.
    assert_eq!(interp.mailbox, None);

    assert!(matches!(s.poll_next_step(&mut interp, 78), StreamPoll::Item(v) if v == ints(&[5])));
    assert!(matches!(s.poll_next_step(&mut interp, 79), StreamPoll::Finished));
}

#[test]
fn collect_items_delivers_every_yield() {
    let mut interp = Interp::new(16);
    let thread = interp.create_thread(CoBody {
        steps: vec![CoOp::AddConst(2), CoOp::AddConst(3), CoOp::Produce(44)],
        repeat: false,
        finish: CoOp::AddConst(0),
    });
    let items = thread.into_async(vec![]).collect_items(&mut interp, 1);
    assert_eq!(items, vec![ints(&[2]), ints(&[5]), ints(&[44])]);
}

#[test]
fn run_future_resolves_with_the_return() {
    let mut interp = Interp::new(16);
    let thread = interp.create_thread(CoBody {
        steps: vec![CoOp::AddConst(7), CoOp::Produce(1)],
        repeat: false,
        finish: CoOp::AddConst(100),
    });
    let r = thread.into_async(vec![]).run_future(&mut interp, 1);
    assert_eq!(r.unwrap(), ints(&[107]));
}

#[test]
fn first_args_consumed_once() {
    let mut interp = Interp::new(16);

    // The deferred first-call arguments are consumed by the first poll;
    // later polls resume with no arguments.
    let thread = interp.create_thread(CoBody {
        steps: vec![CoOp::AddArg, CoOp::Produce(9)],
        repeat: false,
        finish: CoOp::ProduceNothing,
    });
    let mut s = thread.into_async(ints(&[41]));
    assert!(s.first_args.is_some());

    assert!(matches!(s.poll_next_step(&mut interp, 1), StreamPoll::Item(v) if v == ints(&[41])));
    assert!(s.first_args.is_none());
    assert!(matches!(s.poll_next_step(&mut interp, 1), StreamPoll::Item(v) if v == ints(&[9])));
}
