//! The abstract machine computes what evaluation yields, and nothing else.
//!
//! Where the recursive definition of [`crate::evaluation`] says that an
//! expression has a value, the machine that begins to evaluate the
//! expression delivers that value, with the same scopes, after finitely many
//! transitions, to whatever frame is on top of its stack; where the
//! definition says that evaluation fails, the machine fails with the same
//! error. The same holds of statements and of whole programs
//! (`lemma_machine_arrives`). Where the definition yields nothing, however
//! much fuel it is given, the machine never ends: a machine that ends, ends
//! with what evaluation yields for some fuel (`lemma_machine_ends_so`).

use crate::ast::{BinaryOp, ExprView, StmtView, UnaryOp};
use crate::environment::EnvironmentView;
use crate::error::ErrorView;
use crate::evaluation::{
    applied, call, computed, eval, eval_arguments, evaluate, exec, exec_items, exec_while, joined,
    negated, put, run_program, written, Outcome, Written,
};
use crate::semantics::{
    bind_parameters, text, ArithmeticOp, FrameView, Host, Machine, Purpose, ReplyView,
    RequestView, StateView,
};
use crate::value::{ExecutionResultView, NativeFunction, ValueView};
use vstd::prelude::*;

verus! {

/// Where a run is to arrive.
pub enum Goal {
    /// At the given machine.
    At(Machine),
    /// At a machine that has failed with the given error.
    Failure(ErrorView),
    /// Nowhere in particular.
    Unknown,
}

/// The machine with the given scopes and stack, between two states.
pub open spec fn ground(environment: EnvironmentView, stack: Seq<FrameView>) -> Machine {
    Machine { environment, stack, state: StateView::Finished(ValueView::Undefined) }
}

/// The machine with the given scopes and stack that is about to deliver
/// `result`.
pub open spec fn delivering(
    environment: EnvironmentView,
    stack: Seq<FrameView>,
    result: ExecutionResultView,
) -> Machine {
    Machine { environment, stack, state: StateView::Deliver(result) }
}

/// The run of `start` is, after `n` transitions, where `goal` says.
pub open spec fn arrives(start: Machine, host: Host, n: nat, goal: Goal) -> bool {
    match goal {
        Goal::At(target) => start.run(host, n) == target,
        Goal::Failure(e) => start.run(host, n).state == StateView::Failed(e),
        Goal::Unknown => true,
    }
}

/// The program of the machine has run to its end or has failed.
pub open spec fn ended(machine: Machine) -> bool {
    machine.state is Finished || machine.state is Failed
}

/// The run of `start` has not ended before its `n`th transition.
pub open spec fn running(start: Machine, host: Host, n: nat) -> bool {
    forall|k: nat| k < n ==> !ended(#[trigger] start.run(host, k))
}

/// The run of `start` is, after `n` transitions and without having ended
/// before, where `goal` says; where the goal is unknown, it goes on for half
/// of `twice` transitions at the least.
pub open spec fn leads(start: Machine, host: Host, n: nat, goal: Goal, twice: nat) -> bool {
    &&& arrives(start, host, n, goal)
    &&& running(start, host, n)
    &&& goal is Unknown ==> 2 * n >= twice
}

/// Where the evaluation of an expression is to arrive: at the delivery of
/// its value to the stack as it was.
pub open spec fn value_goal(outcome: Outcome<ValueView>, stack: Seq<FrameView>) -> Goal {
    match outcome {
        Outcome::Done(value, environment) => Goal::At(
            delivering(environment, stack, ExecutionResultView::Value(value)),
        ),
        Outcome::Failed(e) => Goal::Failure(e),
        Outcome::Pending => Goal::Unknown,
    }
}

/// Where the execution of a statement is to arrive: at the delivery of what
/// it leaves behind to the stack as it was.
pub open spec fn result_goal(outcome: Outcome<ExecutionResultView>, stack: Seq<FrameView>) -> Goal {
    match outcome {
        Outcome::Done(result, environment) => Goal::At(delivering(environment, stack, result)),
        Outcome::Failed(e) => Goal::Failure(e),
        Outcome::Pending => Goal::Unknown,
    }
}

/// Where the run of a program is to arrive: at its end, with the value that
/// it leaves and an empty stack.
pub open spec fn program_goal(outcome: Outcome<ValueView>, stack: Seq<FrameView>) -> Goal {
    match outcome {
        Outcome::Done(value, environment) => Goal::At(
            Machine { environment, stack, state: StateView::Finished(value) },
        ),
        Outcome::Failed(e) => Goal::Failure(e),
        Outcome::Pending => Goal::Unknown,
    }
}

/// A run of `a + b` transitions is a run of `a` transitions and then one of
/// `b`.
pub proof fn lemma_run_add(machine: Machine, host: Host, a: nat, b: nat)
    ensures
        machine.run(host, a + b) == machine.run(host, a).run(host, b),
    decreases b,
{
    if b > 0 {
        lemma_run_add(machine, host, a, (b - 1) as nat);
        assert(a + b - 1 == a + (b - 1));
    }
}

/// A run that has arrived where it is to arrive needs no transition.
proof fn lemma_here(start: Machine, host: Host, goal: Goal, twice: nat)
    requires
        match goal {
            Goal::At(target) => start == target,
            Goal::Failure(e) => start.state == StateView::Failed(e),
            Goal::Unknown => false,
        },
    ensures
        leads(start, host, 0, goal, twice),
{
}

/// A run that has not ended goes on for one transition at the least.
proof fn lemma_idle(start: Machine, host: Host, twice: nat)
    requires
        !ended(start),
        twice <= 2,
    ensures
        leads(start, host, 1, Goal::Unknown, twice),
{
}

/// A machine that waits for a reply that the host does not give waits for
/// good.
proof fn lemma_waits(start: Machine, host: Host, n: nat)
    requires
        start.state matches StateView::Waiting(request) && start.reply(host(request)) == start,
    ensures
        start.run(host, n) == start,
    decreases n,
{
    if n > 0 {
        lemma_waits(start, host, (n - 1) as nat);
    }
}

/// A machine that waits for a reply that the host does not give goes on
/// for as long as one likes.
proof fn lemma_waits_on(start: Machine, host: Host, twice: nat) -> (n: nat)
    requires
        start.state matches StateView::Waiting(request) && start.reply(host(request)) == start,
    ensures
        leads(start, host, n, Goal::Unknown, twice),
{
    assert forall|k: nat| k < twice implies !ended(#[trigger] start.run(host, k)) by {
        lemma_waits(start, host, k);
    }
    twice
}

/// A run whose first transition leads to `next` arrives where the run of
/// `next` arrives, one transition later.
proof fn lemma_first(
    start: Machine,
    host: Host,
    next: Machine,
    n: nat,
    goal: Goal,
    inner: nat,
    twice: nat,
)
    requires
        start.advance(host) == next,
        !ended(start),
        leads(next, host, n, goal, inner),
        twice <= inner + 2,
    ensures
        leads(start, host, n + 1, goal, twice),
{
    lemma_run_add(start, host, 1, n);
    reveal_with_fuel(Machine::run, 2);
    assert(start.run(host, 1) == next);
    assert(1 + n == n + 1);
    assert forall|k: nat| k < n + 1 implies !ended(#[trigger] start.run(host, k)) by {
        if k > 0 {
            lemma_run_add(start, host, 1, (k - 1) as nat);
            assert(1 + (k - 1) == k);
            assert(start.run(host, k) == next.run(host, (k - 1) as nat));
        }
    }
}

/// A run that is at `middle` after `k` transitions arrives where the run of
/// `middle` arrives, `k` transitions later.
proof fn lemma_prefix(
    start: Machine,
    host: Host,
    k: nat,
    middle: Machine,
    n: nat,
    goal: Goal,
    inner: nat,
    twice: nat,
)
    requires
        start.run(host, k) == middle,
        running(start, host, k),
        leads(middle, host, n, goal, inner),
        twice <= inner + 2 * k,
    ensures
        leads(start, host, k + n, goal, twice),
{
    lemma_run_add(start, host, k, n);
    assert forall|j: nat| j < k + n implies !ended(#[trigger] start.run(host, j)) by {
        if j >= k {
            lemma_run_add(start, host, k, (j - k) as nat);
            assert(k + (j - k) == j);
            assert(start.run(host, j) == middle.run(host, (j - k) as nat));
        }
    }
}

/// Two machines with the same next state have the same run from then on.
proof fn lemma_same_advance(a: Machine, b: Machine, host: Host, n: nat)
    requires
        a.advance(host) == b.advance(host),
        n >= 1,
    ensures
        a.run(host, n) == b.run(host, n),
{
    lemma_run_add(a, host, 1, (n - 1) as nat);
    lemma_run_add(b, host, 1, (n - 1) as nat);
    reveal_with_fuel(Machine::run, 2);
    assert(a.run(host, 1) == b.run(host, 1));
    assert(1 + (n - 1) == n);
}

/// A machine arrives where a machine with the same next state arrives.
proof fn lemma_same_advance_leads(
    a: Machine,
    b: Machine,
    host: Host,
    n: nat,
    goal: Goal,
    twice: nat,
)
    requires
        a.advance(host) == b.advance(host),
        n >= 1,
        !ended(a),
        leads(b, host, n, goal, twice),
    ensures
        leads(a, host, n, goal, twice),
{
    lemma_same_advance(a, b, host, n);
    assert forall|k: nat| k < n implies !ended(#[trigger] a.run(host, k)) by {
        if k >= 1 {
            lemma_same_advance(a, b, host, k);
        }
    }
}

/// The delivery of a result hands it to the frame on top of the stack and
/// takes that frame off.
proof fn lemma_deliver(
    environment: EnvironmentView,
    stack: Seq<FrameView>,
    frame: FrameView,
    result: ExecutionResultView,
    host: Host,
)
    ensures
        delivering(environment, stack.push(frame), result).advance(host) == ground(
            environment,
            stack,
        ).resume(frame, result),
{
    assert(stack.push(frame).drop_last() =~= stack);
}

/// A text that is complete is put to its purpose.
proof fn lemma_put(
    environment: EnvironmentView,
    stack: Seq<FrameView>,
    purpose: Purpose,
    characters: Seq<char>,
    host: Host,
    twice: nat,
) -> (n: nat)
    ensures
        leads(
            ground(environment, stack).finish(purpose, characters),
            host,
            n,
            value_goal(put(purpose, Written::Text(characters), environment, host), stack),
            twice,
        ),
{
    let start = ground(environment, stack).finish(purpose, characters);
    let goal = value_goal(put(purpose, Written::Text(characters), environment, host), stack);
    match purpose {
        Purpose::Print => {
            let next = start.advance(host);
            match host(RequestView::Print(characters)) {
                ReplyView::Done => {
                    lemma_here(next, host, goal, twice);
                    lemma_first(start, host, next, 0, goal, twice, twice);
                    1
                },
                ReplyView::Failure(e) => {
                    lemma_here(next, host, goal, twice);
                    lemma_first(start, host, next, 0, goal, twice, twice);
                    1
                },
                _ => lemma_waits_on(start, host, twice),
            }
        },
        _ => {
            lemma_here(start, host, goal, twice);
            0
        },
    }
}

/// The display form of a value that has been delivered to a text in the
/// making is appended to it, and the pieces that are left follow.
proof fn lemma_joined_text(
    environment: EnvironmentView,
    stack: Seq<FrameView>,
    host: Host,
    sofar: Seq<char>,
    delivered: ValueView,
    pieces: Seq<ValueView>,
    next: nat,
    purpose: Purpose,
    twice: nat,
) -> (n: nat)
    requires
        delivered.display() is Some,
    ensures
        leads(
            delivering(
                environment,
                stack.push(FrameView::Format { text: sofar, pieces, next, purpose }),
                ExecutionResultView::Value(delivered),
            ),
            host,
            n,
            value_goal(
                put(
                    purpose,
                    joined(sofar, delivered, pieces, next, purpose.separator(), host),
                    environment,
                    host,
                ),
                stack,
            ),
            twice,
        ),
    decreases pieces.len() - next, 0int,
{
    let frame = FrameView::Format { text: sofar, pieces, next, purpose };
    let start = delivering(
        environment,
        stack.push(frame),
        ExecutionResultView::Value(delivered),
    );
    let goal = value_goal(
        put(
            purpose,
            joined(sofar, delivered, pieces, next, purpose.separator(), host),
            environment,
            host,
        ),
        stack,
    );
    let characters = delivered.display()->Some_0;
    lemma_deliver(environment, stack, frame, ExecutionResultView::Value(delivered), host);
    let after = start.advance(host);
    if next < pieces.len() {
        let n = lemma_joined(
            environment,
            stack,
            host,
            sofar + characters + purpose.separator(),
            pieces[next as int],
            pieces,
            next + 1,
            purpose,
            twice,
        );
        lemma_first(start, host, after, n, goal, twice, twice);
        n + 1
    } else {
        let n = lemma_put(environment, stack, purpose, sofar + characters, host, twice);
        lemma_first(start, host, after, n, goal, twice, twice);
        n + 1
    }
}

/// A value that has been delivered to a text in the making is displayed,
/// by the host if it is a number, and appended, and the pieces that are left
/// follow.
proof fn lemma_joined(
    environment: EnvironmentView,
    stack: Seq<FrameView>,
    host: Host,
    sofar: Seq<char>,
    first: ValueView,
    pieces: Seq<ValueView>,
    next: nat,
    purpose: Purpose,
    twice: nat,
) -> (n: nat)
    ensures
        leads(
            delivering(
                environment,
                stack.push(FrameView::Format { text: sofar, pieces, next, purpose }),
                ExecutionResultView::Value(first),
            ),
            host,
            n,
            value_goal(
                put(
                    purpose,
                    joined(sofar, first, pieces, next, purpose.separator(), host),
                    environment,
                    host,
                ),
                stack,
            ),
            twice,
        ),
    decreases pieces.len() - next, 1int,
{
    let frame = FrameView::Format { text: sofar, pieces, next, purpose };
    let start = delivering(environment, stack.push(frame), ExecutionResultView::Value(first));
    let goal = value_goal(
        put(
            purpose,
            joined(sofar, first, pieces, next, purpose.separator(), host),
            environment,
            host,
        ),
        stack,
    );
    match first.display() {
        Some(_) => lemma_joined_text(
            environment,
            stack,
            host,
            sofar,
            first,
            pieces,
            next,
            purpose,
            twice,
        ),
        None => {
            let bits = first->Number_0;
            lemma_deliver(environment, stack, frame, ExecutionResultView::Value(first), host);
            let waiting = start.advance(host);
            assert(waiting == ground(environment, stack.push(frame)).ask(
                RequestView::Display(bits),
            ));
            let replied = waiting.advance(host);
            match host(RequestView::Display(bits)) {
                ReplyView::Text(notation) => {
                    let n = lemma_joined_text(
                        environment,
                        stack,
                        host,
                        sofar,
                        text(notation),
                        pieces,
                        next,
                        purpose,
                        twice,
                    );
                    assert(joined(sofar, text(notation), pieces, next, purpose.separator(), host)
                        == joined(sofar, first, pieces, next, purpose.separator(), host));
                    lemma_first(waiting, host, replied, n, goal, twice, twice);
                    lemma_first(start, host, waiting, n + 1, goal, twice, twice);
                    n + 2
                },
                ReplyView::Failure(e) => {
                    lemma_here(replied, host, goal, twice);
                    lemma_first(waiting, host, replied, 0, goal, twice, twice);
                    lemma_first(start, host, waiting, 1, goal, twice, twice);
                    2
                },
                _ => {
                    let n = lemma_waits_on(waiting, host, twice);
                    lemma_first(start, host, waiting, n, goal, twice, twice);
                    n + 1
                },
            }
        },
    }
}

/// The display forms of the pieces are put together and put to their
/// purpose.
proof fn lemma_format(
    environment: EnvironmentView,
    stack: Seq<FrameView>,
    pieces: Seq<ValueView>,
    purpose: Purpose,
    host: Host,
    twice: nat,
) -> (n: nat)
    ensures
        leads(
            ground(environment, stack).format(pieces, purpose),
            host,
            n,
            value_goal(put(purpose, written(pieces, purpose, host), environment, host), stack),
            twice,
        ),
{
    if pieces.len() == 0 {
        lemma_put(environment, stack, purpose, Seq::empty(), host, twice)
    } else {
        lemma_joined(environment, stack, host, Seq::empty(), pieces[0], pieces, 1, purpose, twice)
    }
}

/// The host computes with two numbers.
proof fn lemma_computed(
    environment: EnvironmentView,
    stack: Seq<FrameView>,
    op: ArithmeticOp,
    x: u64,
    y: u64,
    host: Host,
    twice: nat,
) -> (n: nat)
    ensures
        leads(
            ground(environment, stack).ask(RequestView::Arithmetic(op, x, y)),
            host,
            n,
            value_goal(computed(op, x, y, environment, host), stack),
            twice,
        ),
{
    let start = ground(environment, stack).ask(RequestView::Arithmetic(op, x, y));
    let goal = value_goal(computed(op, x, y, environment, host), stack);
    let next = start.advance(host);
    match host(RequestView::Arithmetic(op, x, y)) {
        ReplyView::Number(_) => {
            lemma_here(next, host, goal, twice);
            lemma_first(start, host, next, 0, goal, twice, twice);
            1
        },
        ReplyView::Failure(_) => {
            lemma_here(next, host, goal, twice);
            lemma_first(start, host, next, 0, goal, twice, twice);
            1
        },
        _ => lemma_waits_on(start, host, twice),
    }
}

/// The complaint about the operands of a binary operator is put together.
proof fn lemma_complaint(
    environment: EnvironmentView,
    stack: Seq<FrameView>,
    pieces: Seq<ValueView>,
    host: Host,
    twice: nat,
) -> (n: nat)
    ensures
        leads(
            ground(environment, stack).format(pieces, Purpose::TypeError),
            host,
            n,
            value_goal(
                put(
                    Purpose::TypeError,
                    written(pieces, Purpose::TypeError, host),
                    environment,
                    host,
                ),
                stack,
            ),
            twice,
        ),
{
    lemma_format(environment, stack, pieces, Purpose::TypeError, host, twice)
}

/// A binary operator is applied to the values of its operands.
proof fn lemma_applied(
    environment: EnvironmentView,
    stack: Seq<FrameView>,
    op: BinaryOp,
    a: ValueView,
    b: ValueView,
    host: Host,
    twice: nat,
) -> (n: nat)
    ensures
        leads(
            ground(environment, stack).binary(op, a, b),
            host,
            n,
            value_goal(applied(op, a, b, environment, host), stack),
            twice,
        ),
{
    let machine = ground(environment, stack);
    let start = machine.binary(op, a, b);
    let goal = value_goal(applied(op, a, b, environment, host), stack);
    let numbers = a is Number && b is Number;
    let x = a->Number_0;
    let y = b->Number_0;
    match op {
        BinaryOp::Add => {
            if numbers {
                lemma_computed(environment, stack, ArithmeticOp::Add, x, y, host, twice)
            } else if a is String {
                lemma_joined(
                    environment,
                    stack,
                    host,
                    a->String_0,
                    b,
                    Seq::empty(),
                    0,
                    Purpose::Concat,
                    twice,
                )
            } else if b is String {
                lemma_joined(
                    environment,
                    stack,
                    host,
                    Seq::empty(),
                    a,
                    seq![b],
                    0,
                    Purpose::Concat,
                    twice,
                )
            } else {
                lemma_complaint(
                    environment,
                    stack,
                    seq![text("Cannot add "@), a.quoted(), text(" and "@), b.quoted()],
                    host,
                    twice,
                )
            }
        },
        BinaryOp::Subtract => {
            if numbers {
                lemma_computed(environment, stack, ArithmeticOp::Subtract, x, y, host, twice)
            } else {
                lemma_complaint(
                    environment,
                    stack,
                    seq![text("Cannot subtract "@), b.quoted(), text(" from "@), a.quoted()],
                    host,
                    twice,
                )
            }
        },
        BinaryOp::Multiply => {
            if numbers {
                lemma_computed(environment, stack, ArithmeticOp::Multiply, x, y, host, twice)
            } else {
                lemma_complaint(
                    environment,
                    stack,
                    seq![text("Cannot multiply "@), a.quoted(), text(" and "@), b.quoted()],
                    host,
                    twice,
                )
            }
        },
        BinaryOp::Divide => {
            if numbers {
                if crate::number::is_zero(y) {
                    lemma_here(start, host, goal, twice);
                    0
                } else {
                    lemma_computed(environment, stack, ArithmeticOp::Divide, x, y, host, twice)
                }
            } else {
                lemma_complaint(
                    environment,
                    stack,
                    seq![text("Cannot divide "@), a.quoted(), text(" by "@), b.quoted()],
                    host,
                    twice,
                )
            }
        },
        BinaryOp::Less => {
            if numbers {
                lemma_here(start, host, goal, twice);
                0
            } else {
                lemma_complaint(
                    environment,
                    stack,
                    seq![text("Cannot compare "@), a.quoted(), text(" < "@), b.quoted()],
                    host,
                    twice,
                )
            }
        },
        BinaryOp::LessEqual => {
            if numbers {
                lemma_here(start, host, goal, twice);
                0
            } else {
                lemma_complaint(
                    environment,
                    stack,
                    seq![text("Cannot compare "@), a.quoted(), text(" <= "@), b.quoted()],
                    host,
                    twice,
                )
            }
        },
        BinaryOp::Greater => {
            if numbers {
                lemma_here(start, host, goal, twice);
                0
            } else {
                lemma_complaint(
                    environment,
                    stack,
                    seq![text("Cannot compare "@), a.quoted(), text(" > "@), b.quoted()],
                    host,
                    twice,
                )
            }
        },
        BinaryOp::GreaterEqual => {
            if numbers {
                lemma_here(start, host, goal, twice);
                0
            } else {
                lemma_complaint(
                    environment,
                    stack,
                    seq![text("Cannot compare "@), a.quoted(), text(" >= "@), b.quoted()],
                    host,
                    twice,
                )
            }
        },
        _ => {
            lemma_here(start, host, goal, twice);
            0
        },
    }
}

/// A unary operator is applied to the value of its operand.
proof fn lemma_negated(
    environment: EnvironmentView,
    stack: Seq<FrameView>,
    op: UnaryOp,
    a: ValueView,
    host: Host,
    twice: nat,
) -> (n: nat)
    ensures
        leads(
            ground(environment, stack).resume(
                FrameView::Unary { op },
                ExecutionResultView::Value(a),
            ),
            host,
            n,
            value_goal(negated(op, a, environment, host), stack),
            twice,
        ),
{
    let start = ground(environment, stack).resume(
        FrameView::Unary { op },
        ExecutionResultView::Value(a),
    );
    let goal = value_goal(negated(op, a, environment, host), stack);
    if op == UnaryOp::Negate && !(a is Number) {
        lemma_complaint(
            environment,
            stack,
            seq![text("Cannot negate "@), a.quoted()],
            host,
            twice,
        )
    } else {
        lemma_here(start, host, goal, twice);
        0
    }
}

/// The machine with the given scopes and stack that is about to evaluate
/// `expr`.
pub open spec fn evaluating(
    environment: EnvironmentView,
    stack: Seq<FrameView>,
    expr: ExprView,
) -> Machine {
    Machine { environment, stack, state: StateView::Evaluate(expr) }
}

/// The machine with the given scopes and stack that is about to execute
/// `stmt`.
pub open spec fn executing(
    environment: EnvironmentView,
    stack: Seq<FrameView>,
    stmt: StmtView,
) -> Machine {
    Machine { environment, stack, state: StateView::Execute(stmt) }
}

/// The outcome of an evaluation as what is delivered: the value of an
/// expression.
pub open spec fn lift(outcome: Outcome<ValueView>) -> Outcome<ExecutionResultView> {
    match outcome {
        Outcome::Done(value, environment) => Outcome::Done(
            ExecutionResultView::Value(value),
            environment,
        ),
        Outcome::Failed(e) => Outcome::Failed(e),
        Outcome::Pending => Outcome::Pending,
    }
}

/// A run that arrives at the delivery of a result to `frame` goes on with
/// what the frame does with the result.
proof fn lemma_continue(
    start: Machine,
    stack: Seq<FrameView>,
    frame: FrameView,
    host: Host,
    n1: nat,
    delivered: Outcome<ExecutionResultView>,
    n2: nat,
    goal: Goal,
    before: nat,
    after: nat,
    twice: nat,
) -> (n: nat)
    requires
        leads(start, host, n1, result_goal(delivered, stack.push(frame)), before),
        match delivered {
            Outcome::Done(result, environment) => leads(
                ground(environment, stack).resume(frame, result),
                host,
                n2,
                goal,
                after,
            ),
            Outcome::Failed(e) => goal == Goal::Failure(e),
            Outcome::Pending => goal is Unknown,
        },
        twice <= before,
        twice <= after + 2,
    ensures
        leads(start, host, n, goal, twice),
{
    match delivered {
        Outcome::Done(result, environment) => {
            let arrived = delivering(environment, stack.push(frame), result);
            lemma_deliver(environment, stack, frame, result, host);
            lemma_first(arrived, host, arrived.advance(host), n2, goal, after, twice);
            lemma_prefix(start, host, n1, arrived, n2 + 1, goal, twice, twice);
            n1 + (n2 + 1)
        },
        _ => n1,
    }
}

/// The machine arrives at the value of an expression.
pub proof fn lemma_eval(
    expr: ExprView,
    environment: EnvironmentView,
    stack: Seq<FrameView>,
    host: Host,
    fuel: nat,
) -> (n: nat)
    ensures
        leads(
            evaluating(environment, stack, expr),
            host,
            n,
            value_goal(eval(expr, environment, host, fuel), stack),
            fuel + 1,
        ),
    decreases fuel,
{
    let start = evaluating(environment, stack, expr);
    let goal = value_goal(eval(expr, environment, host, fuel), stack);
    if fuel == 0 {
        lemma_idle(start, host, 1);
        1
    } else {
        let less = (fuel - 1) as nat;
        let begun = start.advance(host);
        assert(begun == ground(environment, stack).evaluate(expr));
        match expr {
            ExprView::Number(digits) => {
                let replied = begun.advance(host);
                match host(RequestView::Parse(digits)) {
                    ReplyView::Number(_) => {
                        lemma_here(replied, host, goal, fuel);
                        lemma_first(begun, host, replied, 0, goal, fuel, fuel);
                        lemma_first(start, host, begun, 1, goal, fuel, fuel + 1);
                        2
                    },
                    ReplyView::Failure(_) => {
                        lemma_here(replied, host, goal, fuel);
                        lemma_first(begun, host, replied, 0, goal, fuel, fuel);
                        lemma_first(start, host, begun, 1, goal, fuel, fuel + 1);
                        2
                    },
                    _ => {
                        let n = lemma_waits_on(begun, host, fuel);
                        lemma_first(start, host, begun, n, goal, fuel, fuel + 1);
                        n + 1
                    },
                }
            },
            ExprView::Binary(left, op, right) => {
                let frame = FrameView::BinaryLeft { op, right: *right };
                let n1 = lemma_eval(*left, environment, stack.push(frame), host, less);
                let first = eval(*left, environment, host, less);
                let mut n2: nat = 0;
                if let Outcome::Done(a, after_left) = first {
                    let resumed = ground(after_left, stack).resume(
                        frame,
                        ExecutionResultView::Value(a),
                    );
                    if (op == BinaryOp::And && !a.is_truthy()) || (op == BinaryOp::Or
                        && a.is_truthy()) {
                        lemma_here(resumed, host, goal, fuel);
                    } else if op == BinaryOp::And || op == BinaryOp::Or {
                        assert(resumed == evaluating(after_left, stack, *right));
                        n2 = lemma_eval(*right, after_left, stack, host, less);
                    } else {
                        let second_frame = FrameView::BinaryRight { op, left: a };
                        assert(resumed == evaluating(
                            after_left,
                            stack.push(second_frame),
                            *right,
                        ));
                        let n3 = lemma_eval(
                            *right,
                            after_left,
                            stack.push(second_frame),
                            host,
                            less,
                        );
                        let second = eval(*right, after_left, host, less);
                        let mut n4: nat = 0;
                        if let Outcome::Done(b, after_right) = second {
                            assert(ground(after_right, stack).resume(
                                second_frame,
                                ExecutionResultView::Value(b),
                            ) == ground(after_right, stack).binary(op, a, b));
                            n4 = lemma_applied(after_right, stack, op, a, b, host, fuel);
                        }
                        n2 = lemma_continue(
                            resumed,
                            stack,
                            second_frame,
                            host,
                            n3,
                            lift(second),
                            n4,
                            goal,
                            fuel,
                            fuel,
                            fuel,
                        );
                    }
                }
                let n = lemma_continue(
                    begun,
                    stack,
                    frame,
                    host,
                    n1,
                    lift(first),
                    n2,
                    goal,
                    fuel,
                    fuel,
                    fuel,
                );
                lemma_first(start, host, begun, n, goal, fuel, fuel + 1);
                n + 1
            },
            ExprView::Unary(op, operand) => {
                let frame = FrameView::Unary { op };
                let n1 = lemma_eval(*operand, environment, stack.push(frame), host, less);
                let first = eval(*operand, environment, host, less);
                let mut n2: nat = 0;
                if let Outcome::Done(a, after) = first {
                    n2 = lemma_negated(after, stack, op, a, host, fuel);
                }
                let n = lemma_continue(
                    begun,
                    stack,
                    frame,
                    host,
                    n1,
                    lift(first),
                    n2,
                    goal,
                    fuel,
                    fuel,
                    fuel,
                );
                lemma_first(start, host, begun, n, goal, fuel, fuel + 1);
                n + 1
            },
            ExprView::Conditional(condition, then_branch, else_branch) => {
                let frame = FrameView::Conditional {
                    then_branch: *then_branch,
                    else_branch: match else_branch {
                        Some(branch) => Some(*branch),
                        None => None,
                    },
                };
                let n1 = lemma_eval(*condition, environment, stack.push(frame), host, less);
                let first = eval(*condition, environment, host, less);
                let mut n2: nat = 0;
                if let Outcome::Done(decided, after) = first {
                    let resumed = ground(after, stack).resume(
                        frame,
                        ExecutionResultView::Value(decided),
                    );
                    if decided.is_truthy() {
                        assert(resumed == evaluating(after, stack, *then_branch));
                        n2 = lemma_eval(*then_branch, after, stack, host, less);
                    } else {
                        match else_branch {
                            Some(branch) => {
                                assert(resumed == evaluating(after, stack, *branch));
                                n2 = lemma_eval(*branch, after, stack, host, less);
                            },
                            None => {
                                lemma_here(resumed, host, goal, fuel);
                            },
                        }
                    }
                }
                let n = lemma_continue(
                    begun,
                    stack,
                    frame,
                    host,
                    n1,
                    lift(first),
                    n2,
                    goal,
                    fuel,
                    fuel,
                    fuel,
                );
                lemma_first(start, host, begun, n, goal, fuel, fuel + 1);
                n + 1
            },
            ExprView::Assign(name, value) => {
                let frame = FrameView::Assign { name };
                let n1 = lemma_eval(*value, environment, stack.push(frame), host, less);
                let first = eval(*value, environment, host, less);
                if let Outcome::Done(assigned, after) = first {
                    let resumed = ground(after, stack).resume(
                        frame,
                        ExecutionResultView::Value(assigned),
                    );
                    lemma_here(resumed, host, goal, fuel);
                }
                let n = lemma_continue(
                    begun,
                    stack,
                    frame,
                    host,
                    n1,
                    lift(first),
                    0,
                    goal,
                    fuel,
                    fuel,
                    fuel,
                );
                lemma_first(start, host, begun, n, goal, fuel, fuel + 1);
                n + 1
            },
            ExprView::Call(callee, arguments) => {
                let frame = FrameView::Callee { arguments };
                let n1 = lemma_eval(*callee, environment, stack.push(frame), host, less);
                let first = eval(*callee, environment, host, less);
                let mut n2: nat = 0;
                if let Outcome::Done(function, after_callee) = first {
                    let resumed = ground(after_callee, stack).resume(
                        frame,
                        ExecutionResultView::Value(function),
                    );
                    assert(resumed == ground(after_callee, stack).arguments(
                        function,
                        Seq::empty(),
                        arguments,
                    ));
                    let n3 = lemma_arguments(
                        function,
                        arguments,
                        Seq::empty(),
                        after_callee,
                        stack,
                        host,
                        less,
                    );
                    match eval_arguments(arguments, Seq::empty(), after_callee, host, less) {
                        Outcome::Done(values, after_arguments) => {
                            let n4 = lemma_call(
                                function,
                                values,
                                after_arguments,
                                stack,
                                host,
                                less,
                            );
                            lemma_prefix(
                                resumed,
                                host,
                                n3,
                                ground(after_arguments, stack).call(function, values),
                                n4,
                                goal,
                                less,
                                less,
                            );
                            n2 = n3 + n4;
                        },
                        _ => {
                            n2 = n3;
                        },
                    }
                }
                let n = lemma_continue(
                    begun,
                    stack,
                    frame,
                    host,
                    n1,
                    lift(first),
                    n2,
                    goal,
                    fuel,
                    less,
                    fuel,
                );
                lemma_first(start, host, begun, n, goal, fuel, fuel + 1);
                n + 1
            },
            _ => {
                lemma_here(begun, host, goal, fuel);
                lemma_first(start, host, begun, 0, goal, fuel, fuel + 1);
                1
            },
        }
    }
}

/// Where the evaluation of the arguments of a call is to arrive: at the
/// call.
pub open spec fn arguments_goal(
    callee: ValueView,
    outcome: Outcome<Seq<ValueView>>,
    stack: Seq<FrameView>,
) -> Goal {
    match outcome {
        Outcome::Done(values, environment) => Goal::At(
            ground(environment, stack).call(callee, values),
        ),
        Outcome::Failed(e) => Goal::Failure(e),
        Outcome::Pending => Goal::Unknown,
    }
}

/// The machine arrives at the call once it has the values of the
/// arguments.
pub proof fn lemma_arguments(
    callee: ValueView,
    arguments: Seq<ExprView>,
    values: Seq<ValueView>,
    environment: EnvironmentView,
    stack: Seq<FrameView>,
    host: Host,
    fuel: nat,
) -> (n: nat)
    ensures
        leads(
            ground(environment, stack).arguments(callee, values, arguments),
            host,
            n,
            arguments_goal(
                callee,
                eval_arguments(arguments, values, environment, host, fuel),
                stack,
            ),
            fuel,
        ),
    decreases fuel,
{
    let start = ground(environment, stack).arguments(callee, values, arguments);
    let goal = arguments_goal(
        callee,
        eval_arguments(arguments, values, environment, host, fuel),
        stack,
    );
    if values.len() >= arguments.len() {
        lemma_here(start, host, goal, fuel);
        0
    } else if fuel == 0 {
        lemma_idle(start, host, 0);
        1
    } else {
        let less = (fuel - 1) as nat;
        let frame = FrameView::Arguments { callee, values, arguments };
        let argument = arguments[values.len() as int];
        assert(start == evaluating(environment, stack.push(frame), argument));
        let n1 = lemma_eval(argument, environment, stack.push(frame), host, less);
        let first = eval(argument, environment, host, less);
        let mut n2: nat = 0;
        if let Outcome::Done(value, after) = first {
            assert(ground(after, stack).resume(frame, ExecutionResultView::Value(value))
                == ground(after, stack).arguments(callee, values.push(value), arguments));
            n2 = lemma_arguments(callee, arguments, values.push(value), after, stack, host, less);
        }
        lemma_continue(start, stack, frame, host, n1, lift(first), n2, goal, fuel, less, fuel)
    }
}

/// The machine arrives at the value of a call.
pub proof fn lemma_call(
    callee: ValueView,
    values: Seq<ValueView>,
    environment: EnvironmentView,
    stack: Seq<FrameView>,
    host: Host,
    fuel: nat,
) -> (n: nat)
    ensures
        leads(
            ground(environment, stack).call(callee, values),
            host,
            n,
            value_goal(call(callee, values, environment, host, fuel), stack),
            fuel,
        ),
    decreases fuel,
{
    let start = ground(environment, stack).call(callee, values);
    let goal = value_goal(call(callee, values, environment, host, fuel), stack);
    match callee {
        ValueView::Function(function) => {
            let frame = FrameView::Call { scope: environment.current };
            let bound = bind_parameters(
                environment.with_enclosing(function.closure),
                function.parameters,
                values,
                0,
            );
            assert(start == executing(bound, stack.push(frame), function.body));
            if fuel == 0 {
                lemma_idle(start, host, 0);
                1
            } else {
                let less = (fuel - 1) as nat;
                let n1 = lemma_exec(function.body, bound, stack.push(frame), host, less);
                let body = exec(function.body, bound, host, less);
                if let Outcome::Done(result, after) = body {
                    lemma_here(ground(after, stack).resume(frame, result), host, goal, fuel);
                }
                lemma_continue(start, stack, frame, host, n1, body, 0, goal, fuel, fuel, fuel)
            }
        },
        ValueView::NativeFunction(NativeFunction::ConsoleLog) => lemma_format(
            environment,
            stack,
            values,
            Purpose::Print,
            host,
            fuel,
        ),
        _ => lemma_complaint(
            environment,
            stack,
            seq![callee.quoted(), text(" is not a function"@)],
            host,
            fuel,
        ),
    }
}

/// The machine arrives at what the execution of a statement leaves
/// behind.
pub proof fn lemma_exec(
    stmt: StmtView,
    environment: EnvironmentView,
    stack: Seq<FrameView>,
    host: Host,
    fuel: nat,
) -> (n: nat)
    ensures
        leads(
            executing(environment, stack, stmt),
            host,
            n,
            result_goal(exec(stmt, environment, host, fuel), stack),
            fuel + 1,
        ),
    decreases fuel,
{
    let start = executing(environment, stack, stmt);
    let goal = result_goal(exec(stmt, environment, host, fuel), stack);
    if fuel == 0 {
        lemma_idle(start, host, 1);
        1
    } else {
        let less = (fuel - 1) as nat;
        let begun = start.advance(host);
        assert(begun == ground(environment, stack).execute(stmt));
        match stmt {
            StmtView::Expression(expr) => {
                let frame = FrameView::ExpressionStatement;
                let n1 = lemma_eval(expr, environment, stack.push(frame), host, less);
                let first = eval(expr, environment, host, less);
                if let Outcome::Done(value, after) = first {
                    lemma_here(
                        ground(after, stack).resume(frame, ExecutionResultView::Value(value)),
                        host,
                        goal,
                        fuel,
                    );
                }
                let n = lemma_continue(
                    begun,
                    stack,
                    frame,
                    host,
                    n1,
                    lift(first),
                    0,
                    goal,
                    fuel,
                    fuel,
                    fuel,
                );
                lemma_first(start, host, begun, n, goal, fuel, fuel + 1);
                n + 1
            },
            StmtView::Declaration(name, Some(expr)) => {
                let frame = FrameView::Declare { name };
                let n1 = lemma_eval(expr, environment, stack.push(frame), host, less);
                let first = eval(expr, environment, host, less);
                if let Outcome::Done(value, after) = first {
                    lemma_here(
                        ground(after, stack).resume(frame, ExecutionResultView::Value(value)),
                        host,
                        goal,
                        fuel,
                    );
                }
                let n = lemma_continue(
                    begun,
                    stack,
                    frame,
                    host,
                    n1,
                    lift(first),
                    0,
                    goal,
                    fuel,
                    fuel,
                    fuel,
                );
                lemma_first(start, host, begun, n, goal, fuel, fuel + 1);
                n + 1
            },
            StmtView::Block(statements) => {
                let entered = environment.with_enclosing(environment.current);
                let n1 = lemma_items(
                    statements,
                    0,
                    ExecutionResultView::Nothing,
                    entered,
                    stack,
                    environment.current,
                    host,
                    less,
                );
                lemma_first(start, host, begun, n1, goal, less, fuel + 1);
                n1 + 1
            },
            StmtView::If(condition, then_branch, else_branch) => {
                let frame = FrameView::If {
                    then_branch: *then_branch,
                    else_branch: match else_branch {
                        Some(branch) => Some(*branch),
                        None => None,
                    },
                };
                let n1 = lemma_eval(condition, environment, stack.push(frame), host, less);
                let first = eval(condition, environment, host, less);
                let mut n2: nat = 0;
                if let Outcome::Done(decided, after) = first {
                    let resumed = ground(after, stack).resume(
                        frame,
                        ExecutionResultView::Value(decided),
                    );
                    if decided.is_truthy() {
                        assert(resumed == executing(after, stack, *then_branch));
                        n2 = lemma_exec(*then_branch, after, stack, host, less);
                    } else {
                        match else_branch {
                            Some(branch) => {
                                assert(resumed == executing(after, stack, *branch));
                                n2 = lemma_exec(*branch, after, stack, host, less);
                            },
                            None => {
                                lemma_here(resumed, host, goal, fuel);
                            },
                        }
                    }
                }
                let n = lemma_continue(
                    begun,
                    stack,
                    frame,
                    host,
                    n1,
                    lift(first),
                    n2,
                    goal,
                    fuel,
                    fuel,
                    fuel,
                );
                lemma_first(start, host, begun, n, goal, fuel, fuel + 1);
                n + 1
            },
            StmtView::While(condition, body) => {
                let n1 = lemma_while(
                    condition,
                    *body,
                    ExecutionResultView::Nothing,
                    environment,
                    stack,
                    host,
                    less,
                );
                lemma_first(start, host, begun, n1, goal, less, fuel + 1);
                n1 + 1
            },
            StmtView::Return(Some(expr)) => {
                let frame = FrameView::Return;
                let n1 = lemma_eval(expr, environment, stack.push(frame), host, less);
                let first = eval(expr, environment, host, less);
                if let Outcome::Done(value, after) = first {
                    lemma_here(
                        ground(after, stack).resume(frame, ExecutionResultView::Value(value)),
                        host,
                        goal,
                        fuel,
                    );
                }
                let n = lemma_continue(
                    begun,
                    stack,
                    frame,
                    host,
                    n1,
                    lift(first),
                    0,
                    goal,
                    fuel,
                    fuel,
                    fuel,
                );
                lemma_first(start, host, begun, n, goal, fuel, fuel + 1);
                n + 1
            },
            _ => {
                lemma_here(begun, host, goal, fuel);
                lemma_first(start, host, begun, 0, goal, fuel, fuel + 1);
                1
            },
        }
    }
}

/// Where the execution of the statements of a block is to arrive: at the
/// delivery of what they leave behind, after the block has been left.
pub open spec fn block_goal(
    outcome: Outcome<ExecutionResultView>,
    stack: Seq<FrameView>,
    scope: nat,
) -> Goal {
    match outcome {
        Outcome::Done(result, environment) => Goal::At(
            delivering(environment.leave(scope), stack, result),
        ),
        Outcome::Failed(e) => Goal::Failure(e),
        Outcome::Pending => Goal::Unknown,
    }
}

/// The machine arrives at what the statements of a block leave behind.
pub proof fn lemma_items(
    statements: Seq<StmtView>,
    next: nat,
    last: ExecutionResultView,
    environment: EnvironmentView,
    stack: Seq<FrameView>,
    scope: nat,
    host: Host,
    fuel: nat,
) -> (n: nat)
    ensures
        leads(
            delivering(
                environment,
                stack.push(FrameView::Block { statements, next, scope }),
                last,
            ),
            host,
            n,
            block_goal(exec_items(statements, next, last, environment, host, fuel), stack, scope),
            fuel,
        ),
    decreases fuel,
{
    let frame = FrameView::Block { statements, next, scope };
    let start = delivering(environment, stack.push(frame), last);
    let goal = block_goal(
        exec_items(statements, next, last, environment, host, fuel),
        stack,
        scope,
    );
    lemma_deliver(environment, stack, frame, last, host);
    let begun = start.advance(host);
    if last is Return || next >= statements.len() {
        lemma_here(begun, host, goal, fuel);
        lemma_first(start, host, begun, 0, goal, fuel, fuel);
        1
    } else if fuel == 0 {
        lemma_idle(start, host, 0);
        1
    } else {
        let less = (fuel - 1) as nat;
        let following = FrameView::Block { statements, next: next + 1, scope };
        let stmt = statements[next as int];
        assert(begun == executing(environment, stack.push(following), stmt));
        let n1 = lemma_exec(stmt, environment, stack.push(following), host, less);
        match exec(stmt, environment, host, less) {
            Outcome::Done(result, after) => {
                let n2 = lemma_items(statements, next + 1, result, after, stack, scope, host, less);
                lemma_prefix(
                    begun,
                    host,
                    n1,
                    delivering(after, stack.push(following), result),
                    n2,
                    goal,
                    less,
                    less,
                );
                lemma_first(start, host, begun, n1 + n2, goal, less, fuel);
                n1 + n2 + 1
            },
            _ => {
                lemma_first(start, host, begun, n1, goal, fuel, fuel);
                n1 + 1
            },
        }
    }
}

/// The machine arrives at what a `while` leaves behind.
pub proof fn lemma_while(
    condition: ExprView,
    body: StmtView,
    last: ExecutionResultView,
    environment: EnvironmentView,
    stack: Seq<FrameView>,
    host: Host,
    fuel: nat,
) -> (n: nat)
    ensures
        leads(
            evaluating(
                environment,
                stack.push(FrameView::WhileCondition { condition, body, last }),
                condition,
            ),
            host,
            n,
            result_goal(exec_while(condition, body, last, environment, host, fuel), stack),
            fuel,
        ),
    decreases fuel,
{
    let frame = FrameView::WhileCondition { condition, body, last };
    let start = evaluating(environment, stack.push(frame), condition);
    let goal = result_goal(exec_while(condition, body, last, environment, host, fuel), stack);
    if fuel == 0 {
        lemma_idle(start, host, 0);
        1
    } else {
        let less = (fuel - 1) as nat;
        let n1 = lemma_eval(condition, environment, stack.push(frame), host, less);
        let first = eval(condition, environment, host, less);
        let mut n2: nat = 0;
        if let Outcome::Done(decided, after_condition) = first {
            let resumed = ground(after_condition, stack).resume(
                frame,
                ExecutionResultView::Value(decided),
            );
            if decided.is_truthy() {
                let running_body = FrameView::WhileBody { condition, body };
                assert(resumed == executing(after_condition, stack.push(running_body), body));
                let n3 = lemma_exec(body, after_condition, stack.push(running_body), host, less);
                let second = exec(body, after_condition, host, less);
                let mut n4: nat = 0;
                if let Outcome::Done(result, after_body) = second {
                    let again = ground(after_body, stack).resume(running_body, result);
                    if result is Return {
                        lemma_here(again, host, goal, less);
                    } else {
                        assert(again == evaluating(
                            after_body,
                            stack.push(
                                FrameView::WhileCondition { condition, body, last: result },
                            ),
                            condition,
                        ));
                        n4 = lemma_while(condition, body, result, after_body, stack, host, less);
                    }
                }
                n2 = lemma_continue(
                    resumed,
                    stack,
                    running_body,
                    host,
                    n3,
                    second,
                    n4,
                    goal,
                    fuel,
                    less,
                    less,
                );
            } else {
                lemma_here(resumed, host, goal, less);
            }
        }
        lemma_continue(start, stack, frame, host, n1, lift(first), n2, goal, fuel, less, fuel)
    }
}

/// The machine arrives at the value that the statements of a program
/// leave.
pub proof fn lemma_program(
    statements: Seq<StmtView>,
    next: nat,
    last: ValueView,
    environment: EnvironmentView,
    stack: Seq<FrameView>,
    host: Host,
    fuel: nat,
) -> (n: nat)
    ensures
        leads(
            delivering(
                environment,
                stack.push(FrameView::Program { statements, next, last }),
                ExecutionResultView::Nothing,
            ),
            host,
            n,
            program_goal(run_program(statements, next, last, environment, host, fuel), stack),
            fuel,
        ),
        n >= 1,
    decreases fuel,
{
    let frame = FrameView::Program { statements, next, last };
    let start = delivering(environment, stack.push(frame), ExecutionResultView::Nothing);
    let goal = program_goal(run_program(statements, next, last, environment, host, fuel), stack);
    lemma_deliver(environment, stack, frame, ExecutionResultView::Nothing, host);
    let begun = start.advance(host);
    if next >= statements.len() {
        lemma_here(begun, host, goal, fuel);
        lemma_first(start, host, begun, 0, goal, fuel, fuel);
        1
    } else if fuel == 0 {
        lemma_idle(start, host, 0);
        1
    } else {
        let less = (fuel - 1) as nat;
        let following = FrameView::Program { statements, next: next + 1, last };
        let stmt = statements[next as int];
        assert(begun == executing(environment, stack.push(following), stmt));
        let n1 = lemma_exec(stmt, environment, stack.push(following), host, less);
        match exec(stmt, environment, host, less) {
            Outcome::Done(result, after) => {
                let arrived = delivering(after, stack.push(following), result);
                lemma_deliver(after, stack, following, result, host);
                match result {
                    ExecutionResultView::Return(returned) => {
                        let ended_so = arrived.advance(host);
                        lemma_here(ended_so, host, goal, less);
                        lemma_first(arrived, host, ended_so, 0, goal, less, less);
                        lemma_prefix(begun, host, n1, arrived, 1, goal, less, less);
                        lemma_first(start, host, begun, n1 + 1, goal, less, fuel);
                        n1 + 1 + 1
                    },
                    _ => {
                        let latest = match result {
                            ExecutionResultView::Value(value) => value,
                            _ => last,
                        };
                        let restarted = FrameView::Program {
                            statements,
                            next: next + 1,
                            last: latest,
                        };
                        let n2 = lemma_program(
                            statements,
                            next + 1,
                            latest,
                            after,
                            stack,
                            host,
                            less,
                        );
                        let restart = delivering(
                            after,
                            stack.push(restarted),
                            ExecutionResultView::Nothing,
                        );
                        lemma_deliver(
                            after,
                            stack,
                            restarted,
                            ExecutionResultView::Nothing,
                            host,
                        );
                        lemma_same_advance_leads(arrived, restart, host, n2, goal, less);
                        lemma_prefix(begun, host, n1, arrived, n2, goal, less, less);
                        lemma_first(start, host, begun, n1 + n2, goal, less, fuel);
                        n1 + n2 + 1
                    },
                }
            },
            _ => {
                lemma_first(start, host, begun, n1, goal, fuel, fuel);
                n1 + 1
            },
        }
    }
}

/// The machine computes what evaluation yields. Where a program has a
/// value, the machine that is loaded with the program ends, after finitely
/// many transitions and not before, with that value and with the scopes as
/// evaluation leaves them; where the program fails, the machine fails with
/// the same error. Where evaluation yields nothing within the fuel, the
/// machine goes on for half as many transitions as there is fuel.
pub proof fn lemma_machine_arrives(
    machine: Machine,
    statements: Seq<StmtView>,
    host: Host,
    fuel: nat,
) -> (n: nat)
    ensures
        leads(
            machine.load(statements),
            host,
            n,
            program_goal(
                evaluate(statements, machine.environment.leave(0), host, fuel),
                Seq::empty(),
            ),
            fuel,
        ),
{
    let frame = FrameView::Program { statements, next: 0, last: ValueView::Undefined };
    assert(seq![frame] =~= Seq::<FrameView>::empty().push(frame));
    lemma_program(
        statements,
        0,
        ValueView::Undefined,
        machine.environment.leave(0),
        Seq::empty(),
        host,
        fuel,
    )
}

/// A machine whose program has ended or failed stays as it is.
pub proof fn lemma_ended_stays(machine: Machine, host: Host, n: nat)
    requires
        ended(machine),
    ensures
        machine.run(host, n) == machine,
    decreases n,
{
    if n > 0 {
        lemma_ended_stays(machine, host, (n - 1) as nat);
    }
}

/// The machine computes nothing but what evaluation yields. A machine that
/// was loaded with a program and has ended or failed after `n` transitions
/// has ended with the value and the scopes, or failed with the error, that
/// evaluation yields once it is given enough fuel; the fuel that is returned
/// is enough.
pub proof fn lemma_machine_ends_so(
    machine: Machine,
    statements: Seq<StmtView>,
    host: Host,
    n: nat,
) -> (fuel: nat)
    requires
        ended(machine.load(statements).run(host, n)),
    ensures
        match evaluate(statements, machine.environment.leave(0), host, fuel) {
            Outcome::Done(value, environment) => machine.load(statements).run(host, n) == (Machine {
                environment,
                stack: Seq::empty(),
                state: StateView::Finished(value),
            }),
            Outcome::Failed(e) => machine.load(statements).run(host, n).state
                == StateView::Failed(e),
            Outcome::Pending => false,
        },
{
    let fuel = 2 * n + 2;
    let start = machine.load(statements);
    let m = lemma_machine_arrives(machine, statements, host, fuel);
    let outcome = evaluate(statements, machine.environment.leave(0), host, fuel);
    if outcome is Pending {
        assert(m > n);
        assert(!ended(start.run(host, n)));
    } else {
        if n < m {
            assert(!ended(start.run(host, n)));
        }
        lemma_run_add(start, host, m, (n - m) as nat);
        lemma_ended_stays(start.run(host, m), host, (n - m) as nat);
        assert(m + (n - m) == n);
    }
    fuel
}

/// What a program evaluates to does not depend on the fuel: where two
/// amounts of fuel both suffice, they give the same value and scopes, or the
/// same error.
pub proof fn lemma_outcome_is_unique(
    statements: Seq<StmtView>,
    environment: EnvironmentView,
    host: Host,
    first: nat,
    second: nat,
)
    ensures
        !(evaluate(statements, environment, host, first) is Pending) && !(evaluate(
            statements,
            environment,
            host,
            second,
        ) is Pending) ==> evaluate(statements, environment, host, first) == evaluate(
            statements,
            environment,
            host,
            second,
        ),
{
    let a = evaluate(statements, environment, host, first);
    let b = evaluate(statements, environment, host, second);
    if !(a is Pending) && !(b is Pending) {
        let frame = FrameView::Program { statements, next: 0, last: ValueView::Undefined };
        let start = delivering(
            environment,
            Seq::empty().push(frame),
            ExecutionResultView::Nothing,
        );
        let n1 = lemma_program(
            statements,
            0,
            ValueView::Undefined,
            environment,
            Seq::empty(),
            host,
            first,
        );
        let n2 = lemma_program(
            statements,
            0,
            ValueView::Undefined,
            environment,
            Seq::empty(),
            host,
            second,
        );
        if n1 <= n2 {
            lemma_run_add(start, host, n1, (n2 - n1) as nat);
            lemma_ended_stays(start.run(host, n1), host, (n2 - n1) as nat);
            assert(n1 + (n2 - n1) == n2);
        } else {
            lemma_run_add(start, host, n2, (n1 - n2) as nat);
            lemma_ended_stays(start.run(host, n2), host, (n1 - n2) as nat);
            assert(n2 + (n1 - n2) == n1);
        }
        assert(start.run(host, n1) == start.run(host, n2));
    }
}

} // verus!
