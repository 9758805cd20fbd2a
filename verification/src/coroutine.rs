use vstd::prelude::*;

use crate::error::Fault;
use crate::value::{wrap_add, Value};

verus! {

/// One step of a coroutine program.
///
/// A coroutine runs a scripted program: each resume executes exactly one step
/// and hands its product back across the bridge, either as a yield (a middle
/// step) or as the coroutine's return (the finishing step).  The program
/// state is a single integer accumulator plus the program counter.
#[derive(Clone, Copy, PartialEq, Eq, Structural, Debug)]
pub enum CoOp {
    /// Add the first resume argument (an integer) to the accumulator and
    /// produce the accumulator.  Faults when the argument is missing or not
    /// an integer.
    AddArg,
    /// Add a constant to the accumulator and produce the accumulator.
    AddConst(i64),
    /// Produce a constant, ignoring the arguments.
    Produce(i64),
    /// Produce no values.
    ProduceNothing,
    /// Fault unless the first resume argument equals `expected`; then
    /// produce `out`.
    ExpectArg { expected: i64, out: i64 },
    /// Consult the waker mailbox and suspend: models a native asynchronous
    /// primitive that parks the current task's waker and produces the
    /// bridge's pending marker.
    AwaitEvent,
}

/// A coroutine program: `steps` are executed one per resume, in order; when
/// `repeat` is set the steps cycle forever, otherwise the resume after the
/// last step executes `finish` and the coroutine returns its product.
#[derive(Debug)]
pub struct CoBody {
    pub steps: Vec<CoOp>,
    pub repeat: bool,
    pub finish: CoOp,
}

impl CoBody {
    /// A repeating program must have at least one step to cycle through.
    pub open spec fn wf(self) -> bool {
        self.repeat ==> self.steps.len() >= 1
    }
}

/// The coroutine's primitive execution state, as the interpreter sees it.
#[derive(Clone, Copy, PartialEq, Eq, Structural, Debug)]
pub enum CoPrim {
    /// Created but never resumed; its arguments-to-be are still parked.
    Fresh,
    /// Suspended at a yield point.
    Suspended,
    /// Currently executing: a resume of it is already in flight.
    Running,
    /// Finished: it returned from its main function.
    Done,
    /// It raised an interpreter error during a resume; terminal.
    Failed,
}

/// The complete state of one coroutine living in the registry.
#[derive(Debug)]
pub struct CoState {
    pub body: CoBody,
    pub pc: usize,
    pub acc: i64,
    pub prim: CoPrim,
    /// The waker an asynchronous primitive last took out of the mailbox.
    pub parked_waker: Option<u64>,
}

impl CoState {
    pub open spec fn wf(self) -> bool {
        &&& self.body.wf()
        &&& self.pc <= self.body.steps.len()
        &&& (self.body.repeat ==> self.pc < self.body.steps.len())
    }

    /// A coroutine can be resumed when it is fresh or suspended mid-yield.
    pub open spec fn resumable(self) -> bool {
        self.prim is Fresh || self.prim is Suspended
    }

    /// The state of a newly created coroutine for `body`.
    pub open spec fn fresh_for(body: CoBody) -> CoState {
        CoState { body, pc: 0, acc: 0, prim: CoPrim::Fresh, parked_waker: None }
    }
}

/// The step the next resume will execute.
pub open spec fn cur_op(co: CoState) -> CoOp {
    if co.pc < co.body.steps.len() {
        co.body.steps[co.pc as int]
    } else {
        co.body.finish
    }
}

/// True when the next resume executes the finishing step, so its product is
/// returned rather than yielded.
pub open spec fn at_finish(co: CoState) -> bool {
    !co.body.repeat && co.pc >= co.body.steps.len()
}

/// The program counter after a yielding step.
pub open spec fn next_pc(co: CoState) -> usize {
    if co.body.repeat {
        if co.pc + 1 >= co.body.steps.len() {
            0
        } else {
            (co.pc + 1) as usize
        }
    } else {
        (co.pc + 1) as usize
    }
}

/// The fault a step raises on the given resume arguments, if any.
pub open spec fn op_fault(op: CoOp, args: Seq<Value>) -> Option<Fault> {
    match op {
        CoOp::AddArg => if args.len() > 0 && args[0] is Int {
            None
        } else {
            Some(Fault::ArithOnNonInteger)
        },
        CoOp::ExpectArg { expected, out } => if args.len() > 0 && args[0] == Value::Int(expected) {
            None
        } else {
            Some(Fault::AssertionFailed)
        },
        _ => None,
    }
}

/// The accumulator after a non-faulting step.
pub open spec fn op_acc(op: CoOp, args: Seq<Value>, acc: i64) -> i64 {
    match op {
        CoOp::AddArg => match args[0] {
            Value::Int(a) => wrap_add(acc, a),
            _ => acc,
        },
        CoOp::AddConst(c) => wrap_add(acc, c),
        _ => acc,
    }
}

/// The values a non-faulting step produces.
pub open spec fn op_values(op: CoOp, args: Seq<Value>, acc: i64) -> Seq<Value> {
    match op {
        CoOp::AddArg => seq![Value::Int(op_acc(op, args, acc))],
        CoOp::AddConst(c) => seq![Value::Int(wrap_add(acc, c))],
        CoOp::Produce(c) => seq![Value::Int(c)],
        CoOp::ProduceNothing => seq![],
        CoOp::ExpectArg { expected, out } => seq![Value::Int(out)],
        CoOp::AwaitEvent => seq![Value::Pending],
    }
}

/// What one resume of a coroutine reports back across the bridge.
pub enum CoEvent {
    Yielded(Seq<Value>),
    Returned(Seq<Value>),
    Faulted(Fault),
}

/// The event one resume of `co` with `args` produces.
pub open spec fn co_event(co: CoState, args: Seq<Value>) -> CoEvent {
    let op = cur_op(co);
    match op_fault(op, args) {
        Some(f) => CoEvent::Faulted(f),
        None => if at_finish(co) {
            CoEvent::Returned(op_values(op, args, co.acc))
        } else {
            CoEvent::Yielded(op_values(op, args, co.acc))
        },
    }
}

/// The coroutine state after one resume with `args`, with `mailbox` holding
/// the waker visible to asynchronous primitives during the resume.
pub open spec fn co_after(co: CoState, args: Seq<Value>, mailbox: Option<u64>) -> CoState {
    let op = cur_op(co);
    match op_fault(op, args) {
        Some(f) => CoState { prim: CoPrim::Failed, ..co },
        None => {
            let acc2 = op_acc(op, args, co.acc);
            let parked = if op is AwaitEvent {
                mailbox
            } else {
                co.parked_waker
            };
            if at_finish(co) {
                CoState { acc: acc2, prim: CoPrim::Done, parked_waker: parked, ..co }
            } else {
                CoState {
                    pc: next_pc(co),
                    acc: acc2,
                    prim: CoPrim::Suspended,
                    parked_waker: parked,
                    ..co
                }
            }
        },
    }
}

/// A program that accumulates: every step, the finishing one included,
/// adds the incoming argument to the accumulator and produces the running
/// sum.
pub open spec fn accumulator(body: CoBody) -> bool {
    &&& body.finish is AddArg
    &&& forall|i: int| 0 <= i < body.steps.len() ==> (#[trigger] body.steps[i]) is AddArg
}

/// The coroutine state after resuming once with each integer argument in
/// turn, with no waker installed.
pub open spec fn resume_all(co: CoState, args: Seq<i64>) -> CoState
    decreases args.len(),
{
    if args.len() == 0 {
        co
    } else {
        co_after(resume_all(co, args.drop_last()), seq![Value::Int(args.last())], None)
    }
}

/// The wrapped running sum of a sequence of integers.
pub open spec fn running_sum(args: Seq<i64>) -> i64
    decreases args.len(),
{
    if args.len() == 0 {
        0
    } else {
        wrap_add(running_sum(args.drop_last()), args.last())
    }
}

/// One resume of an accumulator coroutine with integer argument `a` moves
/// the accumulator from `s` to the wrapped `s + a` and produces exactly
/// that sum: yielded by a middle step, returned by the finishing one.
pub proof fn lemma_accumulator_step(co: CoState, a: i64, mailbox: Option<u64>)
    requires
        co.wf(),
        co.resumable(),
        accumulator(co.body),
    ensures
        co_after(co, seq![Value::Int(a)], mailbox).acc == wrap_add(co.acc, a),
        at_finish(co) ==> co_event(co, seq![Value::Int(a)]) == CoEvent::Returned(
            seq![Value::Int(wrap_add(co.acc, a))],
        ) && co_after(co, seq![Value::Int(a)], mailbox).prim is Done,
        !at_finish(co) ==> co_event(co, seq![Value::Int(a)]) == CoEvent::Yielded(
            seq![Value::Int(wrap_add(co.acc, a))],
        ) && co_after(co, seq![Value::Int(a)], mailbox).prim is Suspended,
{
    if co.pc < co.body.steps.len() {
        assert(co.body.steps[co.pc as int] is AddArg);
    }
}

/// Resuming a fresh, repeating accumulator through any argument prefix
/// leaves it resumable with the running sum in its accumulator.
pub proof fn lemma_accumulator_invariant(body: CoBody, args: Seq<i64>)
    requires
        body.wf(),
        body.repeat,
        accumulator(body),
    ensures
        ({
            let co = resume_all(CoState::fresh_for(body), args);
            &&& co.body == body
            &&& co.wf()
            &&& co.resumable()
            &&& co.acc == running_sum(args)
        }),
    decreases args.len(),
{
    if args.len() > 0 {
        lemma_accumulator_invariant(body, args.drop_last());
        let co_prev = resume_all(CoState::fresh_for(body), args.drop_last());
        lemma_accumulator_step(co_prev, args.last(), None);
    }
}

/// The running-sum law: for every sequence of integer arguments, the `i`-th
/// resume of a freshly created, repeating accumulator coroutine yields
/// exactly the running sum of the first `i + 1` arguments.
pub proof fn lemma_accumulator_running_sum(body: CoBody, args: Seq<i64>, i: int)
    requires
        body.wf(),
        body.repeat,
        accumulator(body),
        0 <= i < args.len(),
    ensures
        co_event(
            resume_all(CoState::fresh_for(body), args.take(i)),
            seq![Value::Int(args[i])],
        ) == CoEvent::Yielded(seq![Value::Int(running_sum(args.take(i + 1)))]),
{
    lemma_accumulator_invariant(body, args.take(i));
    let co = resume_all(CoState::fresh_for(body), args.take(i));
    lemma_accumulator_step(co, args[i], None);
    assert(args.take(i + 1).drop_last() =~= args.take(i));
    assert(args.take(i + 1).last() == args[i]);
}

/// A step whose product depends on neither the resume arguments nor any
/// outside event: it cannot fault and never suspends on a primitive.
pub open spec fn scripted_op(op: CoOp) -> bool {
    op is AddConst || op is Produce || op is ProduceNothing
}

/// A non-repeating program of scripted steps: driven by a stream of polls
/// it yields one item per remaining step and then returns.
pub open spec fn scripted(body: CoBody) -> bool {
    &&& !body.repeat
    &&& scripted_op(body.finish)
    &&& forall|i: int| 0 <= i < body.steps.len() ==> scripted_op(#[trigger] body.steps[i])
}

/// The items a scripted coroutine has yet to yield (its final return is
/// not among them).
pub open spec fn pending_items(co: CoState) -> Seq<Seq<Value>>
    decreases co.body.steps.len() - co.pc,
{
    if !(scripted(co.body) && co.pc < co.body.steps.len()) {
        seq![]
    } else {
        seq![op_values(cur_op(co), seq![], co.acc)] + pending_items(co_after(co, seq![], None))
    }
}

/// The coroutine state after `k` argument-less resumes.
pub open spec fn drive(co: CoState, k: nat) -> CoState
    decreases k,
{
    if k == 0 {
        co
    } else {
        drive(co_after(co, seq![], None), (k - 1) as nat)
    }
}

/// Driving one more resume extends the drive at its back end.
pub proof fn lemma_drive_unfold_back(co: CoState, k: nat)
    ensures
        drive(co, k + 1) == co_after(drive(co, k), Seq::<Value>::empty(), None),
    decreases k,
{
    let c1 = co_after(co, Seq::<Value>::empty(), None);
    assert(drive(co, k + 1) == drive(c1, k));
    if k == 0 {
        assert(drive(c1, 0) == c1);
        assert(drive(co, 0) == co);
    } else {
        lemma_drive_unfold_back(c1, (k - 1) as nat);
        assert(drive(co, k) == drive(c1, (k - 1) as nat));
    }
}

/// For a scripted step, the resume arguments and the mailbox are
/// irrelevant: any resume takes the same step.
pub proof fn lemma_scripted_args_irrelevant(co: CoState, args: Seq<Value>, mailbox: Option<u64>)
    requires
        scripted(co.body) || scripted_op(cur_op(co)),
    ensures
        co_event(co, args) == co_event(co, Seq::<Value>::empty()),
        co_after(co, args, mailbox) == co_after(co, Seq::<Value>::empty(), None),
{
    if co.pc < co.body.steps.len() && scripted(co.body) {
        assert(co.body.steps[co.pc as int] is AddConst || co.body.steps[co.pc as int] is Produce
            || co.body.steps[co.pc as int] is ProduceNothing);
    }
}

/// A scripted coroutine has one pending item per remaining middle step.
pub proof fn lemma_pending_items_len(co: CoState)
    requires
        co.wf(),
        scripted(co.body),
    ensures
        pending_items(co).len() == co.body.steps.len() - co.pc,
    decreases co.body.steps.len() - co.pc,
{
    if co.pc < co.body.steps.len() {
        assert(co.body.steps[co.pc as int] is AddConst || co.body.steps[co.pc as int] is Produce
            || co.body.steps[co.pc as int] is ProduceNothing);
        lemma_pending_items_len(co_after(co, seq![], None));
    }
}

/// The in-order delivery law: the `k`-th argument-less resume of a
/// scripted coroutine yields exactly its `k`-th pending item, and none of
/// those items is the bridge's pending marker.
pub proof fn lemma_stream_items_in_order(co: CoState, k: int)
    requires
        co.wf(),
        scripted(co.body),
        co.resumable(),
        0 <= k < pending_items(co).len(),
    ensures
        drive(co, k as nat).wf(),
        drive(co, k as nat).resumable(),
        drive(co, k as nat).body == co.body,
        co_event(drive(co, k as nat), Seq::<Value>::empty()) == CoEvent::Yielded(
            pending_items(co)[k],
        ),
        !crate::value::is_pending_marker(pending_items(co)[k]),
    decreases k,
{
    lemma_pending_items_len(co);
    assert(co.body.steps[co.pc as int] is AddConst || co.body.steps[co.pc as int] is Produce
        || co.body.steps[co.pc as int] is ProduceNothing);
    let co1 = co_after(co, seq![], None);
    if k == 0 {
        assert(pending_items(co)[0] == op_values(cur_op(co), seq![], co.acc));
    } else {
        lemma_stream_items_in_order(co1, k - 1);
        assert(pending_items(co)[k] == pending_items(co1)[k - 1]);
    }
}

/// The termination law: after yielding all its pending items, the next
/// argument-less resume of a scripted coroutine returns (so a stream of
/// polls delivers exactly those items and then terminates, with no
/// trailing item for the return values).
pub proof fn lemma_stream_terminates(co: CoState)
    requires
        co.wf(),
        scripted(co.body),
        co.resumable(),
    ensures
        ({
            let spent = drive(co, pending_items(co).len());
            &&& spent.wf()
            &&& spent.resumable()
            &&& co_event(spent, Seq::<Value>::empty()) is Returned
            &&& co_after(spent, Seq::<Value>::empty(), None).prim is Done
        }),
    decreases co.body.steps.len() - co.pc,
{
    lemma_pending_items_len(co);
    if co.pc < co.body.steps.len() {
        assert(co.body.steps[co.pc as int] is AddConst || co.body.steps[co.pc as int] is Produce
            || co.body.steps[co.pc as int] is ProduceNothing);
        let co1 = co_after(co, seq![], None);
        lemma_pending_items_len(co1);
        lemma_stream_terminates(co1);
    }
}

/// The executable counterpart of [`co_event`].
#[derive(Debug)]
pub enum ResumeOut {
    Yielded(Vec<Value>),
    Returned(Vec<Value>),
    Faulted(Fault),
}

impl View for ResumeOut {
    type V = CoEvent;

    open spec fn view(&self) -> CoEvent {
        match self {
            ResumeOut::Yielded(vs) => CoEvent::Yielded(vs@),
            ResumeOut::Returned(vs) => CoEvent::Returned(vs@),
            ResumeOut::Faulted(f) => CoEvent::Faulted(*f),
        }
    }
}

/// Execute one step of the coroutine program: the heart of a resume.
///
/// The caller (the thread bridge) has already checked that the coroutine is
/// resumable and owns the interpreter context; `mailbox` is the waker
/// installed for the duration of this resume.
pub fn co_step(co: &mut CoState, args: &Vec<Value>, mailbox: Option<u64>) -> (ev: ResumeOut)
    requires
        old(co).wf(),
        old(co).resumable(),
    ensures
        *final(co) == co_after(*old(co), args@, mailbox),
        final(co).wf(),
        ev@ == co_event(*old(co), args@),
{
    let finishing = !co.body.repeat && co.pc >= co.body.steps.len();
    let op = if co.pc < co.body.steps.len() {
        co.body.steps[co.pc]
    } else {
        co.body.finish
    };

    let mut awaited = false;
    let produced: Result<Vec<Value>, Fault> = match op {
        CoOp::AddArg => {
            if args.len() > 0 {
                match args[0] {
                    Value::Int(a) => {
                        let acc2: i64 = co.acc.wrapping_add(a);
                        co.acc = acc2;
                        Ok(vec![Value::Int(acc2)])
                    },
                    _ => Err(Fault::ArithOnNonInteger),
                }
            } else {
                Err(Fault::ArithOnNonInteger)
            }
        },
        CoOp::AddConst(c) => {
            let acc2: i64 = co.acc.wrapping_add(c);
            co.acc = acc2;
            Ok(vec![Value::Int(acc2)])
        },
        CoOp::Produce(c) => Ok(vec![Value::Int(c)]),
        CoOp::ProduceNothing => Ok(vec![]),
        CoOp::ExpectArg { expected, out } => {
            if args.len() > 0 {
                match args[0] {
                    Value::Int(a) => if a == expected {
                        Ok(vec![Value::Int(out)])
                    } else {
                        Err(Fault::AssertionFailed)
                    },
                    _ => Err(Fault::AssertionFailed),
                }
            } else {
                Err(Fault::AssertionFailed)
            }
        },
        CoOp::AwaitEvent => {
            awaited = true;
            Ok(vec![Value::Pending])
        },
    };

    match produced {
        Err(f) => {
            co.prim = CoPrim::Failed;
            ResumeOut::Faulted(f)
        },
        Ok(vs) => {
            proof {
                assert(vs@ =~= op_values(cur_op(*old(co)), args@, old(co).acc));
            }
            if awaited {
                co.parked_waker = mailbox;
            }
            if finishing {
                co.prim = CoPrim::Done;
                ResumeOut::Returned(vs)
            } else {
                co.prim = CoPrim::Suspended;
                if co.body.repeat {
                    if co.pc + 1 >= co.body.steps.len() {
                        co.pc = 0;
                    } else {
                        co.pc = co.pc + 1;
                    }
                } else {
                    co.pc = co.pc + 1;
                }
                ResumeOut::Yielded(vs)
            }
        },
    }
}

} // verus!
