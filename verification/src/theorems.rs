//! What holds of every run of the machine.

use crate::ast::{BinaryOp, ExprView, StmtView};
use crate::environment::EnvironmentView;
use crate::error::ErrorView;
use crate::evaluation::{applied, eval, Outcome};
use crate::program::program_of;
use crate::number::{is_zero, INFINITY};
use crate::semantics::{bind_parameters, FrameView, Host, Machine, StateView};
use crate::value::{ExecutionResultView, FunctionView, ValueView};
use vstd::prelude::*;

verus! {

/// The machine that evaluates the source text `source`, after `n`
/// transitions with the host `host`; or the error that lexing or parsing
/// the source raises.
pub open spec fn run_of(source: Seq<char>, host: Host, n: nat) -> Result<Machine, ErrorView> {
    match program_of(source) {
        Err(e) => Err(e),
        Ok(statements) => Ok(Machine::initial().load(statements).run(host, n)),
    }
}

/// Evaluation is deterministic. A run is a function of the machine it
/// starts from and of what the host replies to the requests that arise in
/// it, and of nothing else: two hosts that reply alike to those requests
/// lead the machine through the same states and are asked the same.
pub proof fn lemma_run_is_deterministic(machine: Machine, first: Host, second: Host, n: nat)
    requires
        forall|k: nat|
            k < n ==> (#[trigger] machine.run(first, k).state matches StateView::Waiting(request)
                ==> first(request) == second(request)),
    ensures
        machine.run(first, n) == machine.run(second, n),
        machine.consulted(first, n) == machine.consulted(second, n),
    decreases n,
{
    if n > 0 {
        let before = (n - 1) as nat;
        assert forall|k: nat| k < before implies (#[trigger] machine.run(
            first,
            k,
        ).state matches StateView::Waiting(request) ==> first(request) == second(request)) by {
            assert(k < n);
        }
        lemma_run_is_deterministic(machine, first, second, before);
        assert(machine.run(first, before).state matches StateView::Waiting(request) ==> first(
            request,
        ) == second(request));
    }
}

/// Evaluating one source text twice gives one outcome: the same error from
/// the lexer or the parser, or the same states of the machine, as long as
/// the host replies alike to the requests that arise.
pub proof fn lemma_evaluation_is_deterministic(source: Seq<char>, first: Host, second: Host, n: nat)
    requires
        forall|k: nat|
            k < n ==> (#[trigger] run_of(source, first, k) matches Ok(machine) ==> (
            machine.state matches StateView::Waiting(request) ==> first(request) == second(
                request,
            ))),
    ensures
        run_of(source, first, n) == run_of(source, second, n),
{
    if let Ok(statements) = program_of(source) {
        let machine = Machine::initial().load(statements);
        assert forall|k: nat| k < n implies (#[trigger] machine.run(
            first,
            k,
        ).state matches StateView::Waiting(request) ==> first(request) == second(request)) by {
            assert(run_of(source, first, k) == Ok::<Machine, ErrorView>(
                machine.run(first, k),
            ));
        }
        lemma_run_is_deterministic(machine, first, second, n);
    }
}

/// `or` short-circuits: once its left operand has yielded a truthy value,
/// that value is the value of the whole, and the right operand is dropped
/// without a step of its evaluation. Scopes and the rest of the stack stay
/// as they are.
pub proof fn lemma_or_short_circuits(machine: Machine, right: ExprView, value: ValueView)
    requires
        machine.state == StateView::Deliver(ExecutionResultView::Value(value)),
        machine.stack.len() > 0,
        machine.stack.last() == (FrameView::BinaryLeft { op: BinaryOp::Or, right }),
        value.is_truthy(),
    ensures
        machine.step() == (Machine {
            environment: machine.environment,
            stack: machine.stack.drop_last(),
            state: StateView::Deliver(ExecutionResultView::Value(value)),
        }),
{
}

/// `or` goes on to its right operand once its left operand has yielded a
/// falsy value.
pub proof fn lemma_or_continues(machine: Machine, right: ExprView, value: ValueView)
    requires
        machine.state == StateView::Deliver(ExecutionResultView::Value(value)),
        machine.stack.len() > 0,
        machine.stack.last() == (FrameView::BinaryLeft { op: BinaryOp::Or, right }),
        !value.is_truthy(),
    ensures
        machine.step() == (Machine {
            environment: machine.environment,
            stack: machine.stack.drop_last(),
            state: StateView::Evaluate(right),
        }),
{
}

/// `and` short-circuits: once its left operand has yielded a falsy value,
/// that value is the value of the whole, and the right operand is dropped
/// without a step of its evaluation.
pub proof fn lemma_and_short_circuits(machine: Machine, right: ExprView, value: ValueView)
    requires
        machine.state == StateView::Deliver(ExecutionResultView::Value(value)),
        machine.stack.len() > 0,
        machine.stack.last() == (FrameView::BinaryLeft { op: BinaryOp::And, right }),
        !value.is_truthy(),
    ensures
        machine.step() == (Machine {
            environment: machine.environment,
            stack: machine.stack.drop_last(),
            state: StateView::Deliver(ExecutionResultView::Value(value)),
        }),
{
}

/// `and` goes on to its right operand once its left operand has yielded a
/// truthy value.
pub proof fn lemma_and_continues(machine: Machine, right: ExprView, value: ValueView)
    requires
        machine.state == StateView::Deliver(ExecutionResultView::Value(value)),
        machine.stack.len() > 0,
        machine.stack.last() == (FrameView::BinaryLeft { op: BinaryOp::And, right }),
        value.is_truthy(),
    ensures
        machine.step() == (Machine {
            environment: machine.environment,
            stack: machine.stack.drop_last(),
            state: StateView::Evaluate(right),
        }),
{
}

/// The division of a number by zero yields positive infinity, whatever the
/// signs of the two, and the division of two numbers never fails.
pub proof fn lemma_division_by_zero(machine: Machine, dividend: u64, divisor: u64)
    ensures
        is_zero(divisor) ==> machine.divide(
            ValueView::Number(dividend),
            ValueView::Number(divisor),
        ) == machine.value(ValueView::Number(INFINITY)),
        !(machine.divide(ValueView::Number(dividend), ValueView::Number(divisor)).state is Failed),
        machine.state == StateView::Deliver(
            ExecutionResultView::Value(ValueView::Number(divisor)),
        ) && machine.stack.len() > 0 && machine.stack.last() == (FrameView::BinaryRight {
            op: BinaryOp::Divide,
            left: ValueView::Number(dividend),
        }) && is_zero(divisor) ==> machine.step().state == StateView::Deliver(
            ExecutionResultView::Value(ValueView::Number(INFINITY)),
        ),
{
}

impl EnvironmentView {
    /// Every scope that `self` keeps for good is kept for good by `later`,
    /// in its place and with the same enclosing scope, and what it binds it
    /// still binds there, to one value or another.
    pub open spec fn persists_in(self, later: EnvironmentView) -> bool {
        &&& self.pinned <= later.pinned
        &&& forall|i: int|
            0 <= i < self.pinned ==> (#[trigger] later.scopes[i]).enclosing
                == self.scopes[i].enclosing
        &&& forall|i: int, name: Seq<char>|
            0 <= i < self.pinned && self.scopes[i].bindings.contains_key(name)
                ==> #[trigger] later.scopes[i].bindings.contains_key(name)
    }
}

/// Leaving a block or a call keeps the scopes well-formed and loses no scope
/// that is kept for good, nor anything that such a scope binds.
pub proof fn lemma_leave_persists(environment: EnvironmentView, scope: nat)
    requires
        environment.well_formed(),
    ensures
        environment.leave(scope).well_formed(),
        environment.persists_in(environment.leave(scope)),
{
}

/// Capturing the scope in force keeps the scopes as they are and has the
/// scope in force kept for good.
pub proof fn lemma_capture_persists(environment: EnvironmentView)
    requires
        environment.well_formed(),
    ensures
        environment.capture().well_formed(),
        environment.persists_in(environment.capture()),
        environment.capture().scopes == environment.scopes,
        environment.capture().current == environment.current,
        environment.capture().pinned > environment.current,
{
}

/// Binding a name in a scope keeps the scopes well-formed and loses no
/// scope and nothing that a scope binds.
pub proof fn lemma_bind_persists(
    environment: EnvironmentView,
    scope: nat,
    name: Seq<char>,
    value: ValueView,
)
    requires
        environment.well_formed(),
        scope < environment.scopes.len(),
    ensures
        environment.bind(scope, name, value).well_formed(),
        environment.persists_in(environment.bind(scope, name, value)),
{
}

/// Opening a scope keeps the scopes well-formed and loses no scope and
/// nothing that a scope binds.
pub proof fn lemma_with_enclosing_persists(environment: EnvironmentView, enclosing: nat)
    requires
        environment.well_formed(),
    ensures
        environment.with_enclosing(enclosing).well_formed(),
        environment.persists_in(environment.with_enclosing(enclosing)),
{
}

/// A name is held by the same scope in two environments that agree, on the
/// way from `scope` outward, on what encloses what and on which scopes bind
/// the name.
pub proof fn lemma_holder_agrees(
    before: EnvironmentView,
    after: EnvironmentView,
    scope: nat,
    name: Seq<char>,
)
    requires
        before.well_formed(),
        scope < before.scopes.len() <= after.scopes.len(),
        forall|i: int|
            0 <= i <= scope ==> (#[trigger] after.scopes[i]).enclosing == before.scopes[i].enclosing
                && after.scopes[i].bindings.contains_key(name)
                == before.scopes[i].bindings.contains_key(name),
    ensures
        after.holder_from(scope, name) == before.holder_from(scope, name),
    decreases scope,
{
    assert(after.scopes[scope as int].enclosing == before.scopes[scope as int].enclosing);
    if !before.scopes[scope as int].bindings.contains_key(name) {
        if let Some(outer) = before.scopes[scope as int].enclosing {
            if outer < scope {
                lemma_holder_agrees(before, after, outer, name);
            }
        }
    }
}

/// Binding parameters writes to the scope in force and to no other: it
/// binds there the parameters, and leaves every other name as it was.
pub proof fn lemma_bind_parameters(
    environment: EnvironmentView,
    parameters: Seq<Seq<char>>,
    values: Seq<ValueView>,
    i: nat,
)
    requires
        environment.well_formed(),
    ensures
        ({
            let bound = bind_parameters(environment, parameters, values, i);
            let scope = environment.current as int;
            &&& bound.well_formed()
            &&& bound.current == environment.current
            &&& bound.scopes.len() == environment.scopes.len()
            &&& bound.pinned == environment.pinned
            &&& bound.scopes[scope].enclosing == environment.scopes[scope].enclosing
            &&& forall|j: int|
                0 <= j < environment.scopes.len() && j != scope ==> #[trigger] bound.scopes[j]
                    == environment.scopes[j]
            &&& forall|name: Seq<char>|
                !parameters.contains(name) ==> (#[trigger] bound.scopes[scope].bindings.contains_key(
                    name,
                ) == environment.scopes[scope].bindings.contains_key(name)
                    && bound.scopes[scope].bindings[name]
                    == environment.scopes[scope].bindings[name])
        }),
    decreases parameters.len() - i,
{
    if i < parameters.len() {
        let value = if i < values.len() {
            values[i as int]
        } else {
            ValueView::Undefined
        };
        let next = environment.define(parameters[i as int], value);
        lemma_bind_persists(environment, environment.current, parameters[i as int], value);
        lemma_bind_parameters(next, parameters, values, i + 1);
        let bound = bind_parameters(environment, parameters, values, i);
        assert(bound == bind_parameters(next, parameters, values, i + 1));
        let scope = environment.current as int;
        assert forall|name: Seq<char>| !parameters.contains(name) implies (
        #[trigger] bound.scopes[scope].bindings.contains_key(name)
            == environment.scopes[scope].bindings.contains_key(name)
            && bound.scopes[scope].bindings[name] == environment.scopes[scope].bindings[name]) by {
            if parameters[i as int] == name {
                assert(parameters.contains(name));
            }
            assert(next.scopes[scope].bindings.contains_key(name)
                == environment.scopes[scope].bindings.contains_key(name));
            assert(next.scopes[scope].bindings[name] == environment.scopes[scope].bindings[name]);
            assert(bound.scopes[scope].bindings.contains_key(name)
                == next.scopes[scope].bindings.contains_key(name));
        }
    }
}

/// A closure sees the scope that it captured. In a call of a function, a
/// name that is no parameter resolves as it does from the scope that the
/// function captured when its literal or declaration was evaluated, whatever
/// scope the caller is in. A function captures the scope in force (see
/// `lemma_literal_captures_scope`), and what a function has captured is
/// never lost (see `lemma_step_keeps_scopes`).
pub proof fn lemma_call_sees_captured_scope(
    machine: Machine,
    function: FunctionView,
    values: Seq<ValueView>,
    name: Seq<char>,
)
    requires
        machine.well_formed(),
        function.closure < machine.environment.scopes.len(),
        !function.parameters.contains(name),
    ensures
        machine.call(ValueView::Function(function), values).state == StateView::Execute(
            function.body,
        ),
        machine.call(ValueView::Function(function), values).environment.lookup(name)
            == machine.environment.select(function.closure).lookup(name),
{
    let environment = machine.environment;
    let entered = environment.with_enclosing(function.closure);
    lemma_with_enclosing_persists(environment, function.closure);
    lemma_bind_parameters(entered, function.parameters, values, 0);
    let bound = bind_parameters(entered, function.parameters, values, 0);
    let fresh = environment.scopes.len();
    assert(machine.call(ValueView::Function(function), values).environment == bound);
    assert(!entered.scopes[fresh as int].bindings.contains_key(name));
    assert(!bound.scopes[fresh as int].bindings.contains_key(name));
    assert(bound.scopes[fresh as int].enclosing == Some(function.closure));
    assert forall|i: int| 0 <= i <= function.closure implies (#[trigger] bound.scopes[i]).enclosing
        == environment.scopes[i].enclosing && bound.scopes[i].bindings.contains_key(name)
        == environment.scopes[i].bindings.contains_key(name) by {
        assert(bound.scopes[i] == entered.scopes[i]);
    }
    lemma_holder_agrees(environment, bound, function.closure, name);
    assert(bound.holder(name) == bound.holder_from(function.closure, name));
    lemma_holder_agrees(environment, environment.select(function.closure), function.closure, name);
    if let Some(holder) = environment.holder_from(function.closure, name) {
        lemma_holder_in_range(environment, function.closure, name);
        assert(bound.scopes[holder as int] == entered.scopes[holder as int]);
    }
}

/// The scope that holds a name lies on the way outward: its index is at
/// most that of the scope the search starts from, and it binds the name.
pub proof fn lemma_holder_in_range(environment: EnvironmentView, scope: nat, name: Seq<char>)
    requires
        scope < environment.scopes.len(),
    ensures
        environment.holder_from(scope, name) matches Some(holder) ==> holder <= scope
            && environment.scopes[holder as int].bindings.contains_key(name),
    decreases scope,
{
    if !environment.scopes[scope as int].bindings.contains_key(name) {
        if let Some(outer) = environment.scopes[scope as int].enclosing {
            if outer < scope {
                lemma_holder_in_range(environment, outer, name);
            }
        }
    }
}

/// A function literal captures the scope in force, and from then on that
/// scope is kept for good.
pub proof fn lemma_literal_captures_scope(
    machine: Machine,
    parameters: Seq<Seq<char>>,
    body: StmtView,
)
    ensures
        machine.evaluate(ExprView::Function(parameters, Box::new(body))).state
            == StateView::Deliver(
            ExecutionResultView::Value(
                ValueView::Function(
                    FunctionView { parameters, body, closure: machine.environment.current },
                ),
            ),
        ),
        machine.evaluate(ExprView::Function(parameters, Box::new(body))).environment.pinned
            > machine.environment.current,
{
}

/// Applying an operator touches no scope.
proof fn lemma_operators_keep_environment(machine: Machine, a: ValueView, b: ValueView)
    ensures
        forall|op: BinaryOp| #[trigger] machine.binary(op, a, b).environment == machine.environment,
        machine.negate(a).environment == machine.environment,
{
    assert forall|op: BinaryOp| #[trigger]
        machine.binary(op, a, b).environment == machine.environment by {
        assert(machine.add(a, b).environment == machine.environment);
        assert(machine.subtract(a, b).environment == machine.environment);
        assert(machine.multiply(a, b).environment == machine.environment);
        assert(machine.divide(a, b).environment == machine.environment);
        assert(machine.less_than(a, b).environment == machine.environment);
        assert(machine.less_equal(a, b).environment == machine.environment);
        assert(machine.greater_than(a, b).environment == machine.environment);
        assert(machine.greater_equal(a, b).environment == machine.environment);
    }
}

/// A call keeps the scopes well-formed and loses no scope that is kept for
/// good, nor anything that such a scope binds.
proof fn lemma_call_keeps_scopes(machine: Machine, callee: ValueView, values: Seq<ValueView>)
    requires
        machine.well_formed(),
    ensures
        machine.call(callee, values).well_formed(),
        machine.environment.persists_in(machine.call(callee, values).environment),
{
    match callee {
        ValueView::Function(function) => {
            let entered = machine.environment.with_enclosing(function.closure);
            lemma_with_enclosing_persists(machine.environment, function.closure);
            lemma_bind_parameters(entered, function.parameters, values, 0);
            let bound = bind_parameters(entered, function.parameters, values, 0);
            assert forall|i: int| 0 <= i < machine.environment.pinned implies bound.scopes[i]
                == machine.environment.scopes[i] by {
                assert(bound.scopes[i] == entered.scopes[i]);
            }
        },
        _ => {},
    }
}

/// Handing a result to a frame keeps the scopes well-formed and loses no
/// scope that is kept for good, nor anything that such a scope binds.
proof fn lemma_resume_keeps_scopes(machine: Machine, frame: FrameView, result: ExecutionResultView)
    requires
        machine.well_formed(),
    ensures
        machine.resume(frame, result).well_formed(),
        machine.environment.persists_in(machine.resume(frame, result).environment),
{
    let value = result.value();
    let environment = machine.environment;
    match frame {
        FrameView::BinaryRight { op, left } => {
            lemma_operators_keep_environment(machine, left, value);
        },
        FrameView::Unary { op } => {
            lemma_operators_keep_environment(machine, value, value);
        },
        FrameView::Assign { name } => {
            if let Some(scope) = environment.holder(name) {
                lemma_holder_in_range(environment, environment.current, name);
                lemma_bind_persists(environment, scope, name, value);
            }
        },
        FrameView::Callee { arguments } => {
            lemma_call_keeps_scopes(machine, value, Seq::empty());
        },
        FrameView::Arguments { callee, values, arguments } => {
            lemma_call_keeps_scopes(machine, callee, values.push(value));
        },
        FrameView::Declare { name } => {
            lemma_bind_persists(environment, environment.current, name, value);
        },
        FrameView::Block { statements, next, scope } => {
            lemma_leave_persists(environment, scope);
        },
        FrameView::Call { scope } => {
            lemma_leave_persists(environment, scope);
        },
        _ => {},
    }
}

/// What a function has captured is never lost. A step keeps the scopes
/// well-formed; every scope that is kept for good stays where it is,
/// enclosed by the scope that enclosed it, and goes on binding the names
/// that it bound. So what a function captured is there when the function
/// is called, however long after and whatever blocks have ended since.
pub proof fn lemma_step_keeps_scopes(machine: Machine)
    requires
        machine.well_formed(),
    ensures
        machine.step().well_formed(),
        machine.environment.persists_in(machine.step().environment),
{
    let environment = machine.environment;
    match machine.state {
        StateView::Execute(stmt) => {
            match stmt {
                StmtView::Declaration(name, initializer) => {
                    lemma_bind_persists(
                        environment,
                        environment.current,
                        name,
                        ValueView::Undefined,
                    );
                },
                StmtView::Block(statements) => {
                    lemma_with_enclosing_persists(environment, environment.current);
                },
                StmtView::Function(name, parameters, body) => {
                    lemma_capture_persists(environment);
                    lemma_bind_persists(
                        environment.capture(),
                        environment.current,
                        name,
                        ValueView::Function(
                            FunctionView { parameters, body: *body, closure: environment.current },
                        ),
                    );
                },
                _ => {},
            }
        },
        StateView::Deliver(result) => {
            if machine.stack.len() > 0 {
                lemma_resume_keeps_scopes(machine.idle().pop(), machine.stack.last(), result);
            }
        },
        StateView::Evaluate(expr) => {
            lemma_capture_persists(environment);
        },
        _ => {},
    }
}

/// A whole run keeps the scopes well-formed and loses no scope that is
/// kept for good.
pub proof fn lemma_run_keeps_scopes(machine: Machine, host: Host, n: nat)
    requires
        machine.well_formed(),
    ensures
        machine.run(host, n).well_formed(),
        machine.environment.persists_in(machine.run(host, n).environment),
    decreases n,
{
    if n > 0 {
        let before = machine.run(host, (n - 1) as nat);
        lemma_run_keeps_scopes(machine, host, (n - 1) as nat);
        lemma_step_keeps_scopes(before);
        assert(before.environment.persists_in(before.advance(host).environment));
    }
}

/// A declaration is seen by the reads that follow it: the name reads as the
/// value it was declared with, and every other name reads as before.
pub proof fn lemma_define_then_lookup(
    environment: EnvironmentView,
    name: Seq<char>,
    value: ValueView,
)
    requires
        environment.well_formed(),
    ensures
        environment.define(name, value).lookup(name) == Some(value),
        forall|other: Seq<char>|
            other != name ==> #[trigger] environment.define(name, value).lookup(other)
                == environment.lookup(other),
{
    let defined = environment.define(name, value);
    assert forall|other: Seq<char>| other != name implies #[trigger] defined.lookup(other)
        == environment.lookup(other) by {
        lemma_holder_agrees(environment, defined, environment.current, other);
        lemma_holder_in_range(environment, environment.current, other);
    }
}

/// An assignment succeeds exactly where the name can be read, and is then
/// seen by the reads that follow it: the name reads as the value assigned,
/// and every other name reads as before.
pub proof fn lemma_assign_then_lookup(
    environment: EnvironmentView,
    name: Seq<char>,
    value: ValueView,
)
    requires
        environment.well_formed(),
    ensures
        environment.assign(name, value) is Some <==> environment.lookup(name) is Some,
        environment.assign(name, value) matches Some(assigned) ==> {
            &&& assigned.well_formed()
            &&& assigned.current == environment.current
            &&& assigned.lookup(name) == Some(value)
            &&& forall|other: Seq<char>|
                other != name ==> #[trigger] assigned.lookup(other) == environment.lookup(other)
        },
{
    if let Some(scope) = environment.holder(name) {
        let assigned = environment.bind(scope, name, value);
        lemma_holder_in_range(environment, environment.current, name);
        lemma_bind_persists(environment, scope, name, value);
        lemma_holder_agrees(environment, assigned, environment.current, name);
        assert forall|other: Seq<char>| other != name implies #[trigger] assigned.lookup(other)
            == environment.lookup(other) by {
            lemma_holder_agrees(environment, assigned, environment.current, other);
            lemma_holder_in_range(environment, environment.current, other);
        }
    }
}

/// A `while` evaluates its condition anew after every run of its body that
/// did not return; a body that returned ends the loop with what it
/// returned.
pub proof fn lemma_while_evaluates_its_condition_again(
    machine: Machine,
    condition: ExprView,
    body: StmtView,
    result: ExecutionResultView,
)
    requires
        machine.state == StateView::Deliver(result),
        machine.stack.len() > 0,
        machine.stack.last() == (FrameView::WhileBody { condition, body }),
    ensures
        !(result is Return) ==> machine.step().state == StateView::Evaluate(condition)
            && machine.step().stack == machine.stack.drop_last().push(
            FrameView::WhileCondition { condition, body, last: result },
        ),
        result is Return ==> machine.step().state == StateView::Deliver(result)
            && machine.step().stack == machine.stack.drop_last(),
{
}

/// The right operand of an `or` whose left operand is truthy has no part
/// in the evaluation: whatever stands there, the value is that of the left
/// operand and the scopes are as the left operand leaves them. The same
/// holds of an `and` whose left operand is falsy.
pub proof fn lemma_right_operand_is_left_alone(
    left: ExprView,
    right: ExprView,
    environment: EnvironmentView,
    host: Host,
    fuel: nat,
)
    requires
        fuel > 0,
    ensures
        eval(left, environment, host, (fuel - 1) as nat) matches Outcome::Done(value, after)
            ==> {
            &&& value.is_truthy() ==> eval(
                ExprView::Binary(Box::new(left), BinaryOp::Or, Box::new(right)),
                environment,
                host,
                fuel,
            ) == Outcome::Done(value, after)
            &&& !value.is_truthy() ==> eval(
                ExprView::Binary(Box::new(left), BinaryOp::And, Box::new(right)),
                environment,
                host,
                fuel,
            ) == Outcome::Done(value, after)
        },
{
}

/// Dividing a number by zero is no error and needs no host: the quotient
/// is positive infinity.
pub proof fn lemma_quotient_by_zero(
    dividend: u64,
    divisor: u64,
    environment: EnvironmentView,
    host: Host,
)
    requires
        is_zero(divisor),
    ensures
        applied(
            BinaryOp::Divide,
            ValueView::Number(dividend),
            ValueView::Number(divisor),
            environment,
            host,
        ) == Outcome::Done(ValueView::Number(INFINITY), environment),
{
}

} // verus!
