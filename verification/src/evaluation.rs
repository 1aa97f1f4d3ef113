//! What a program evaluates to.
//!
//! The functions of this module say directly, by recursion over the syntax
//! tree, what the evaluation of an expression, the execution of a statement
//! and the run of a program yield: the value or result and the scopes as
//! they are afterwards, or the error that ends the run. They take the host as
//! a function from requests to replies.
//!
//! Evaluation need not end, so every function takes fuel, the depth to
//! which it may recurse, and yields `Pending` where the fuel does not
//! suffice. It also yields `Pending` where the host does not answer a
//! request, for the run then never goes on.
//!
//! The abstract machine is proved to arrive at what these functions yield
//! (see [`crate::adequacy`]).

use crate::ast::{BinaryOp, ExprView, StmtView, UnaryOp};
use crate::environment::{not_defined, EnvironmentView};
use crate::error::ErrorView;
use crate::number::{is_zero, less, less_equal, negation, INFINITY};
use crate::semantics::{
    bind_parameters, text, ArithmeticOp, Host, Purpose, ReplyView, RequestView,
};
use crate::value::{ExecutionResultView, FunctionView, NativeFunction, ValueView};
use vstd::prelude::*;

verus! {

/// What a piece of evaluation yields.
pub enum Outcome<T> {
    /// It ends, with the given result and scopes.
    Done(T, EnvironmentView),
    /// It fails, and with it the run.
    Failed(ErrorView),
    /// It does not end within the fuel, or the host does not answer.
    Pending,
}

/// What putting a text together yields.
pub enum Written {
    Text(Seq<char>),
    Failed(ErrorView),
    Pending,
}

/// The display form of a value: that of a number is its decimal notation,
/// which the host provides.
pub open spec fn shown(value: ValueView, host: Host) -> Written {
    match value.display() {
        Some(characters) => Written::Text(characters),
        None => match host(RequestView::Display(value->Number_0)) {
            ReplyView::Text(notation) => Written::Text(notation),
            ReplyView::Failure(e) => Written::Failed(e),
            _ => Written::Pending,
        },
    }
}

/// `written`, then the display form of `first`, then those of the pieces
/// from `next` on, with `separator` between every two.
pub open spec fn joined(
    written: Seq<char>,
    first: ValueView,
    pieces: Seq<ValueView>,
    next: nat,
    separator: Seq<char>,
    host: Host,
) -> Written
    decreases pieces.len() - next,
{
    match shown(first, host) {
        Written::Text(characters) => if next < pieces.len() {
            joined(
                written + characters + separator,
                pieces[next as int],
                pieces,
                next + 1,
                separator,
                host,
            )
        } else {
            Written::Text(written + characters)
        },
        other => other,
    }
}

/// The display forms of the pieces, one after the other, with the
/// separator of the purpose between every two.
pub open spec fn written(pieces: Seq<ValueView>, purpose: Purpose, host: Host) -> Written {
    if pieces.len() == 0 {
        Written::Text(Seq::empty())
    } else {
        joined(Seq::empty(), pieces[0], pieces, 1, purpose.separator(), host)
    }
}

/// What a text is good for once it is written: the value of a
/// concatenation, a line that the host prints, or the message of a
/// `TypeError`.
pub open spec fn put(
    purpose: Purpose,
    written: Written,
    environment: EnvironmentView,
    host: Host,
) -> Outcome<ValueView> {
    match written {
        Written::Text(characters) => match purpose {
            Purpose::Concat => Outcome::Done(text(characters), environment),
            Purpose::Print => match host(RequestView::Print(characters)) {
                ReplyView::Done => Outcome::Done(ValueView::Undefined, environment),
                ReplyView::Failure(e) => Outcome::Failed(e),
                _ => Outcome::Pending,
            },
            Purpose::TypeError => Outcome::Failed(ErrorView::TypeError { message: characters }),
        },
        Written::Failed(e) => Outcome::Failed(e),
        Written::Pending => Outcome::Pending,
    }
}

/// The `TypeError` whose message is made of the display forms of the
/// pieces.
pub open spec fn type_error(pieces: Seq<ValueView>, environment: EnvironmentView, host: Host) -> Outcome<
    ValueView,
> {
    put(Purpose::TypeError, written(pieces, Purpose::TypeError, host), environment, host)
}

/// The number that the host computes from two numbers.
pub open spec fn computed(
    op: ArithmeticOp,
    x: u64,
    y: u64,
    environment: EnvironmentView,
    host: Host,
) -> Outcome<ValueView> {
    match host(RequestView::Arithmetic(op, x, y)) {
        ReplyView::Number(bits) => Outcome::Done(ValueView::Number(bits), environment),
        ReplyView::Failure(e) => Outcome::Failed(e),
        _ => Outcome::Pending,
    }
}

/// The complaint that `a` and `b` cannot be compared by the operator that
/// `sign` writes.
pub open spec fn incomparable(
    a: ValueView,
    sign: Seq<char>,
    b: ValueView,
    environment: EnvironmentView,
    host: Host,
) -> Outcome<ValueView> {
    type_error(seq![text("Cannot compare "@), a.quoted(), text(sign), b.quoted()], environment, host)
}

/// A binary operator that is not `and` or `or`, applied to the values of
/// its operands.
///
/// | operator | operands | result |
/// |---|---|---|
/// | `+` | two numbers | their sum |
/// | `+` | a string and any value | the display forms of the two, joined |
/// | `-` `*` `/` | two numbers | difference, product, quotient; positive infinity where the divisor is zero |
/// | `<` `<=` `>` `>=` | two numbers | whether they compare so |
/// | `==` `!=` | any two values | whether they are equal |
///
/// Any other operands are a `TypeError`.
pub open spec fn applied(
    op: BinaryOp,
    a: ValueView,
    b: ValueView,
    environment: EnvironmentView,
    host: Host,
) -> Outcome<ValueView> {
    match op {
        BinaryOp::Add => match (a, b) {
            (ValueView::Number(x), ValueView::Number(y)) => computed(
                ArithmeticOp::Add,
                x,
                y,
                environment,
                host,
            ),
            (ValueView::String(characters), _) => put(
                Purpose::Concat,
                joined(characters, b, Seq::empty(), 0, Seq::empty(), host),
                environment,
                host,
            ),
            (_, ValueView::String(_)) => put(
                Purpose::Concat,
                joined(Seq::empty(), a, seq![b], 0, Seq::empty(), host),
                environment,
                host,
            ),
            _ => type_error(
                seq![text("Cannot add "@), a.quoted(), text(" and "@), b.quoted()],
                environment,
                host,
            ),
        },
        BinaryOp::Subtract => match (a, b) {
            (ValueView::Number(x), ValueView::Number(y)) => computed(
                ArithmeticOp::Subtract,
                x,
                y,
                environment,
                host,
            ),
            _ => type_error(
                seq![text("Cannot subtract "@), b.quoted(), text(" from "@), a.quoted()],
                environment,
                host,
            ),
        },
        BinaryOp::Multiply => match (a, b) {
            (ValueView::Number(x), ValueView::Number(y)) => computed(
                ArithmeticOp::Multiply,
                x,
                y,
                environment,
                host,
            ),
            _ => type_error(
                seq![text("Cannot multiply "@), a.quoted(), text(" and "@), b.quoted()],
                environment,
                host,
            ),
        },
        BinaryOp::Divide => match (a, b) {
            (ValueView::Number(x), ValueView::Number(y)) => if is_zero(y) {
                Outcome::Done(ValueView::Number(INFINITY), environment)
            } else {
                computed(ArithmeticOp::Divide, x, y, environment, host)
            },
            _ => type_error(
                seq![text("Cannot divide "@), a.quoted(), text(" by "@), b.quoted()],
                environment,
                host,
            ),
        },
        BinaryOp::Equal => Outcome::Done(ValueView::Boolean(a.is_equal(b)), environment),
        BinaryOp::NotEqual => Outcome::Done(ValueView::Boolean(!a.is_equal(b)), environment),
        BinaryOp::Less => match (a, b) {
            (ValueView::Number(x), ValueView::Number(y)) => Outcome::Done(
                ValueView::Boolean(less(x, y)),
                environment,
            ),
            _ => incomparable(a, " < "@, b, environment, host),
        },
        BinaryOp::LessEqual => match (a, b) {
            (ValueView::Number(x), ValueView::Number(y)) => Outcome::Done(
                ValueView::Boolean(less_equal(x, y)),
                environment,
            ),
            _ => incomparable(a, " <= "@, b, environment, host),
        },
        BinaryOp::Greater => match (a, b) {
            (ValueView::Number(x), ValueView::Number(y)) => Outcome::Done(
                ValueView::Boolean(less(y, x)),
                environment,
            ),
            _ => incomparable(a, " > "@, b, environment, host),
        },
        BinaryOp::GreaterEqual => match (a, b) {
            (ValueView::Number(x), ValueView::Number(y)) => Outcome::Done(
                ValueView::Boolean(less_equal(y, x)),
                environment,
            ),
            _ => incomparable(a, " >= "@, b, environment, host),
        },
        BinaryOp::And => Outcome::Done(
            if a.is_truthy() {
                b
            } else {
                a
            },
            environment,
        ),
        BinaryOp::Or => Outcome::Done(
            if a.is_truthy() {
                a
            } else {
                b
            },
            environment,
        ),
    }
}

/// A unary operator, applied to the value of its operand: `-` negates a
/// number and is a `TypeError` on any other value, `!` yields whether the
/// value is falsy.
pub open spec fn negated(
    op: UnaryOp,
    a: ValueView,
    environment: EnvironmentView,
    host: Host,
) -> Outcome<ValueView> {
    match op {
        UnaryOp::Negate => match a {
            ValueView::Number(x) => Outcome::Done(ValueView::Number(negation(x)), environment),
            _ => type_error(seq![text("Cannot negate "@), a.quoted()], environment, host),
        },
        UnaryOp::Not => Outcome::Done(ValueView::Boolean(!a.is_truthy()), environment),
    }
}

/// The value of an expression.
///
/// Operands are evaluated from left to right, and all of them before the
/// operator is applied; only `and` and `or` leave their right operand alone
/// where the left one decides, and yield the operand that decided, as it
/// is.
pub open spec fn eval(
    expr: ExprView,
    environment: EnvironmentView,
    host: Host,
    fuel: nat,
) -> Outcome<ValueView>
    decreases fuel,
{
    if fuel == 0 {
        Outcome::Pending
    } else {
        let fuel = (fuel - 1) as nat;
        match expr {
            ExprView::Number(digits) => match host(RequestView::Parse(digits)) {
                ReplyView::Number(bits) => Outcome::Done(ValueView::Number(bits), environment),
                ReplyView::Failure(e) => Outcome::Failed(e),
                _ => Outcome::Pending,
            },
            ExprView::String(characters) => Outcome::Done(text(characters), environment),
            ExprView::Boolean(value) => Outcome::Done(ValueView::Boolean(value), environment),
            ExprView::Null => Outcome::Done(ValueView::Null, environment),
            ExprView::Variable(name) => match environment.lookup(name) {
                Some(value) => Outcome::Done(value, environment),
                None => Outcome::Failed(ErrorView::ReferenceError { message: not_defined(name) }),
            },
            ExprView::Binary(left, op, right) => match eval(*left, environment, host, fuel) {
                Outcome::Done(a, after_left) => match op {
                    BinaryOp::And => if a.is_truthy() {
                        eval(*right, after_left, host, fuel)
                    } else {
                        Outcome::Done(a, after_left)
                    },
                    BinaryOp::Or => if a.is_truthy() {
                        Outcome::Done(a, after_left)
                    } else {
                        eval(*right, after_left, host, fuel)
                    },
                    _ => match eval(*right, after_left, host, fuel) {
                        Outcome::Done(b, after_right) => applied(op, a, b, after_right, host),
                        other => other,
                    },
                },
                other => other,
            },
            ExprView::Unary(op, operand) => match eval(*operand, environment, host, fuel) {
                Outcome::Done(a, after) => negated(op, a, after, host),
                other => other,
            },
            ExprView::Conditional(condition, then_branch, else_branch) => match eval(
                *condition,
                environment,
                host,
                fuel,
            ) {
                Outcome::Done(decided, after) => if decided.is_truthy() {
                    eval(*then_branch, after, host, fuel)
                } else {
                    match else_branch {
                        Some(branch) => eval(*branch, after, host, fuel),
                        None => Outcome::Done(ValueView::Undefined, after),
                    }
                },
                other => other,
            },
            ExprView::Assign(name, value) => match eval(*value, environment, host, fuel) {
                Outcome::Done(assigned, after) => match after.assign(name, assigned) {
                    Some(written) => Outcome::Done(assigned, written),
                    None => Outcome::Failed(
                        ErrorView::ReferenceError { message: not_defined(name) },
                    ),
                },
                other => other,
            },
            ExprView::Call(callee, arguments) => match eval(*callee, environment, host, fuel) {
                Outcome::Done(function, after_callee) => match eval_arguments(
                    arguments,
                    Seq::empty(),
                    after_callee,
                    host,
                    fuel,
                ) {
                    Outcome::Done(values, after_arguments) => call(
                        function,
                        values,
                        after_arguments,
                        host,
                        fuel,
                    ),
                    Outcome::Failed(e) => Outcome::Failed(e),
                    Outcome::Pending => Outcome::Pending,
                },
                other => other,
            },
            ExprView::Function(parameters, body) => Outcome::Done(
                ValueView::Function(
                    FunctionView { parameters, body: *body, closure: environment.current },
                ),
                environment.capture(),
            ),
        }
    }
}

/// The values of the arguments after those in `values`, from left to
/// right.
pub open spec fn eval_arguments(
    arguments: Seq<ExprView>,
    values: Seq<ValueView>,
    environment: EnvironmentView,
    host: Host,
    fuel: nat,
) -> Outcome<Seq<ValueView>>
    decreases fuel,
{
    if values.len() >= arguments.len() {
        Outcome::Done(values, environment)
    } else if fuel == 0 {
        Outcome::Pending
    } else {
        match eval(arguments[values.len() as int], environment, host, (fuel - 1) as nat) {
            Outcome::Done(value, after) => eval_arguments(
                arguments,
                values.push(value),
                after,
                host,
                (fuel - 1) as nat,
            ),
            Outcome::Failed(e) => Outcome::Failed(e),
            Outcome::Pending => Outcome::Pending,
        }
    }
}

/// The value of a call.
///
/// A function of the program executes its body in a fresh scope, enclosed
/// by the scope that the function captured, in which the parameters are
/// bound to the values; the value is what the body returned, and
/// `undefined` where it did not return. Afterwards the scope of the caller
/// is in force again. The print function of the host has the display forms of the
/// values printed on a line, with single spaces between them, and yields
/// `undefined`. Any other value cannot be called.
pub open spec fn call(
    callee: ValueView,
    values: Seq<ValueView>,
    environment: EnvironmentView,
    host: Host,
    fuel: nat,
) -> Outcome<ValueView>
    decreases fuel,
{
    match callee {
        ValueView::Function(function) => if fuel == 0 {
            Outcome::Pending
        } else {
            match exec(
                function.body,
                bind_parameters(
                    environment.with_enclosing(function.closure),
                    function.parameters,
                    values,
                    0,
                ),
                host,
                (fuel - 1) as nat,
            ) {
                Outcome::Done(result, after) => Outcome::Done(
                    result.returned(),
                    after.leave(environment.current),
                ),
                Outcome::Failed(e) => Outcome::Failed(e),
                Outcome::Pending => Outcome::Pending,
            }
        },
        ValueView::NativeFunction(NativeFunction::ConsoleLog) => put(
            Purpose::Print,
            written(values, Purpose::Print, host),
            environment,
            host,
        ),
        _ => type_error(seq![callee.quoted(), text(" is not a function"@)], environment, host),
    }
}

/// What the execution of a statement leaves behind.
pub open spec fn exec(
    stmt: StmtView,
    environment: EnvironmentView,
    host: Host,
    fuel: nat,
) -> Outcome<ExecutionResultView>
    decreases fuel,
{
    if fuel == 0 {
        Outcome::Pending
    } else {
        let fuel = (fuel - 1) as nat;
        match stmt {
            StmtView::Expression(expr) => match eval(expr, environment, host, fuel) {
                Outcome::Done(value, after) => Outcome::Done(
                    ExecutionResultView::Value(value),
                    after,
                ),
                Outcome::Failed(e) => Outcome::Failed(e),
                Outcome::Pending => Outcome::Pending,
            },
            StmtView::Declaration(name, initializer) => match initializer {
                Some(expr) => match eval(expr, environment, host, fuel) {
                    Outcome::Done(value, after) => Outcome::Done(
                        ExecutionResultView::Nothing,
                        after.define(name, value),
                    ),
                    Outcome::Failed(e) => Outcome::Failed(e),
                    Outcome::Pending => Outcome::Pending,
                },
                None => Outcome::Done(
                    ExecutionResultView::Nothing,
                    environment.define(name, ValueView::Undefined),
                ),
            },
            StmtView::Block(statements) => match exec_items(
                statements,
                0,
                ExecutionResultView::Nothing,
                environment.with_enclosing(environment.current),
                host,
                fuel,
            ) {
                Outcome::Done(result, after) => Outcome::Done(
                    result,
                    after.leave(environment.current),
                ),
                other => other,
            },
            StmtView::If(condition, then_branch, else_branch) => match eval(
                condition,
                environment,
                host,
                fuel,
            ) {
                Outcome::Done(decided, after) => if decided.is_truthy() {
                    exec(*then_branch, after, host, fuel)
                } else {
                    match else_branch {
                        Some(branch) => exec(*branch, after, host, fuel),
                        None => Outcome::Done(ExecutionResultView::Nothing, after),
                    }
                },
                Outcome::Failed(e) => Outcome::Failed(e),
                Outcome::Pending => Outcome::Pending,
            },
            StmtView::While(condition, body) => exec_while(
                condition,
                *body,
                ExecutionResultView::Nothing,
                environment,
                host,
                fuel,
            ),
            StmtView::Return(value) => match value {
                Some(expr) => match eval(expr, environment, host, fuel) {
                    Outcome::Done(returned, after) => Outcome::Done(
                        ExecutionResultView::Return(returned),
                        after,
                    ),
                    Outcome::Failed(e) => Outcome::Failed(e),
                    Outcome::Pending => Outcome::Pending,
                },
                None => Outcome::Done(
                    ExecutionResultView::Return(ValueView::Undefined),
                    environment,
                ),
            },
            StmtView::Function(name, parameters, body) => Outcome::Done(
                ExecutionResultView::Nothing,
                environment.capture().define(
                    name,
                    ValueView::Function(
                        FunctionView { parameters, body: *body, closure: environment.current },
                    ),
                ),
            ),
        }
    }
}

/// What the statements of a block from index `next` on leave behind, where
/// `last` is what the statement before them left: what the last statement
/// leaves, or what the first `return` among them returns.
pub open spec fn exec_items(
    statements: Seq<StmtView>,
    next: nat,
    last: ExecutionResultView,
    environment: EnvironmentView,
    host: Host,
    fuel: nat,
) -> Outcome<ExecutionResultView>
    decreases fuel,
{
    if last is Return || next >= statements.len() {
        Outcome::Done(last, environment)
    } else if fuel == 0 {
        Outcome::Pending
    } else {
        match exec(statements[next as int], environment, host, (fuel - 1) as nat) {
            Outcome::Done(result, after) => exec_items(
                statements,
                next + 1,
                result,
                after,
                host,
                (fuel - 1) as nat,
            ),
            other => other,
        }
    }
}

/// What a `while` leaves behind, where `last` is what its body left when
/// it last ran. The condition is evaluated before every run of the body; the
/// loop ends when the condition is falsy, and leaves what the body left
/// last, or when the body returns, and leaves what it returned.
pub open spec fn exec_while(
    condition: ExprView,
    body: StmtView,
    last: ExecutionResultView,
    environment: EnvironmentView,
    host: Host,
    fuel: nat,
) -> Outcome<ExecutionResultView>
    decreases fuel,
{
    if fuel == 0 {
        Outcome::Pending
    } else {
        let fuel = (fuel - 1) as nat;
        match eval(condition, environment, host, fuel) {
            Outcome::Done(decided, after_condition) => if decided.is_truthy() {
                match exec(body, after_condition, host, fuel) {
                    Outcome::Done(result, after_body) => if result is Return {
                        Outcome::Done(result, after_body)
                    } else {
                        exec_while(condition, body, result, after_body, host, fuel)
                    },
                    other => other,
                }
            } else {
                Outcome::Done(last, after_condition)
            },
            Outcome::Failed(e) => Outcome::Failed(e),
            Outcome::Pending => Outcome::Pending,
        }
    }
}

/// The value that the statements of a program from index `next` on leave,
/// where `last` is the value of the last expression statement before them:
/// the value of the last expression statement of the program, or what the
/// first `return` at the top level returns.
pub open spec fn run_program(
    statements: Seq<StmtView>,
    next: nat,
    last: ValueView,
    environment: EnvironmentView,
    host: Host,
    fuel: nat,
) -> Outcome<ValueView>
    decreases fuel,
{
    if next >= statements.len() {
        Outcome::Done(last, environment)
    } else if fuel == 0 {
        Outcome::Pending
    } else {
        match exec(statements[next as int], environment, host, (fuel - 1) as nat) {
            Outcome::Done(result, after) => match result {
                ExecutionResultView::Return(returned) => Outcome::Done(returned, after),
                ExecutionResultView::Value(value) => run_program(
                    statements,
                    next + 1,
                    value,
                    after,
                    host,
                    (fuel - 1) as nat,
                ),
                ExecutionResultView::Nothing => run_program(
                    statements,
                    next + 1,
                    last,
                    after,
                    host,
                    (fuel - 1) as nat,
                ),
            },
            Outcome::Failed(e) => Outcome::Failed(e),
            Outcome::Pending => Outcome::Pending,
        }
    }
}

/// The value of a program: that of its last expression statement, or what a
/// `return` at the top level returns, or `undefined` where there is neither.
pub open spec fn evaluate(
    statements: Seq<StmtView>,
    environment: EnvironmentView,
    host: Host,
    fuel: nat,
) -> Outcome<ValueView> {
    run_program(statements, 0, ValueView::Undefined, environment, host, fuel)
}

} // verus!
