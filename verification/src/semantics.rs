//! The semantics of programs, as an abstract machine.
//!
//! A machine holds the scopes of the program, a stack of frames that say
//! what is to be done with the result of the work at hand, and its state:
//! an expression to evaluate, a statement to execute, a result to deliver to
//! the frame on top of the stack, a request to the host that waits for its
//! reply, or the end of the run. `Machine::step` is the transition function;
//! the executable interpreter is proved to compute it.
//!
//! The host does for the machine what the machine cannot do itself:
//! arithmetic on numbers that rounds, the conversions between numbers and
//! their decimal notation, and output.

use crate::ast::{BinaryOp, ExprView, StmtView, UnaryOp};
use crate::environment::{not_defined, EnvironmentView};
use crate::error::ErrorView;
use crate::number::{is_zero, less, less_equal, negation, INFINITY};
use crate::value::{ExecutionResultView, FunctionView, NativeFunction, ValueView};
use vstd::prelude::*;

verus! {

/// The arithmetic that the host does.
#[derive(Debug, Clone, Copy, PartialEq, Eq, Structural)]
pub enum ArithmeticOp {
    Add,
    Subtract,
    Multiply,
    Divide,
}

/// What a text that is being put together is for.
#[derive(Debug, Clone, Copy, PartialEq, Eq, Structural)]
pub enum Purpose {
    /// The value of a `+` with a string operand.
    Concat,
    /// A line for the host to print.
    Print,
    /// The message of a `TypeError`.
    TypeError,
}

impl Purpose {
    /// What stands between two pieces of the text.
    pub open spec fn separator(self) -> Seq<char> {
        match self {
            Purpose::Print => seq![' '],
            _ => Seq::empty(),
        }
    }
}

/// The mathematical model of a request to the host.
pub enum RequestView {
    /// Apply the operation to the two numbers.
    Arithmetic(ArithmeticOp, u64, u64),
    /// Convert the decimal notation to the number nearest to it.
    Parse(Seq<char>),
    /// Convert the number to its decimal notation.
    Display(u64),
    /// Print the text on a line of its own.
    Print(Seq<char>),
}

/// The mathematical model of a reply of the host.
pub enum ReplyView {
    /// The number that arithmetic or parsing gave.
    Number(u64),
    /// The notation of the number that was to be displayed.
    Text(Seq<char>),
    /// The line was printed.
    Done,
    /// The host could not do what was asked.
    Failure(ErrorView),
}

/// What is to be done with a result, once it is there.
pub enum FrameView {
    /// The left operand of `op` is being evaluated; `right` comes next.
    BinaryLeft { op: BinaryOp, right: ExprView },
    /// The right operand of `op` is being evaluated; `left` is the value of
    /// the left one.
    BinaryRight { op: BinaryOp, left: ValueView },
    /// The operand of `op` is being evaluated.
    Unary { op: UnaryOp },
    /// The condition of a conditional expression is being evaluated.
    Conditional { then_branch: ExprView, else_branch: Option<ExprView> },
    /// The value to assign to `name` is being evaluated.
    Assign { name: Seq<char> },
    /// The callee of a call is being evaluated.
    Callee { arguments: Seq<ExprView> },
    /// The argument after those whose values are in `values` is being
    /// evaluated.
    Arguments { callee: ValueView, values: Seq<ValueView>, arguments: Seq<ExprView> },
    /// A text is being put together: `text` is what there is of it, and the
    /// pieces from `next` on are still to come after the one at hand.
    Format { text: Seq<char>, pieces: Seq<ValueView>, next: nat, purpose: Purpose },
    /// The expression of an expression statement is being evaluated.
    ExpressionStatement,
    /// The initial value of `name` is being evaluated.
    Declare { name: Seq<char> },
    /// The condition of an `if` is being evaluated.
    If { then_branch: StmtView, else_branch: Option<StmtView> },
    /// The condition of a `while` is being evaluated; `last` is what the
    /// body left behind when it last ran.
    WhileCondition { condition: ExprView, body: StmtView, last: ExecutionResultView },
    /// The body of a `while` is being executed.
    WhileBody { condition: ExprView, body: StmtView },
    /// The value of a `return` is being evaluated.
    Return,
    /// A statement of a block is being executed; the statement at `next`
    /// comes next, and `scope` is the scope to go back to after the block.
    Block { statements: Seq<StmtView>, next: nat, scope: nat },
    /// The body of a function is being executed; `scope` is the scope of
    /// the caller.
    Call { scope: nat },
    /// A statement of the program is being executed; the statement at
    /// `next` comes next, and `last` is the value of the last expression
    /// statement so far.
    Program { statements: Seq<StmtView>, next: nat, last: ValueView },
}

/// What the machine is about to do.
pub enum StateView {
    /// Evaluate the expression in the scope in force.
    Evaluate(ExprView),
    /// Execute the statement in the scope in force.
    Execute(StmtView),
    /// Hand the result to the frame on top of the stack.
    Deliver(ExecutionResultView),
    /// Nothing, until the host has replied to the request.
    Waiting(RequestView),
    /// Nothing: the program has run to its end and left the value.
    Finished(ValueView),
    /// Nothing: the program has failed with the error.
    Failed(ErrorView),
}

/// What the host is to do after a step of the machine.
pub enum ActionView {
    /// Let the machine take its next step.
    Continue,
    /// Do what the request asks, and hand the machine the reply.
    Request(RequestView),
    /// Nothing more: the program has run to its end and left the value.
    Finished(ValueView),
    /// Nothing more: the program has failed with the error.
    Failed(ErrorView),
}

/// The abstract machine.
pub struct Machine {
    pub environment: EnvironmentView,
    pub stack: Seq<FrameView>,
    pub state: StateView,
}

/// The string value that holds `text`.
pub open spec fn text(text: Seq<char>) -> ValueView {
    ValueView::String(text)
}

/// The environment in which the parameters from index `i` on are bound, in
/// the scope in force, to the values at their places; a parameter without a
/// value is bound to `undefined`, and a value without a parameter is left
/// out.
pub open spec fn bind_parameters(
    environment: EnvironmentView,
    parameters: Seq<Seq<char>>,
    values: Seq<ValueView>,
    i: nat,
) -> EnvironmentView
    decreases parameters.len() - i,
{
    if i >= parameters.len() {
        environment
    } else {
        bind_parameters(
            environment.define(
                parameters[i as int],
                if i < values.len() {
                    values[i as int]
                } else {
                    ValueView::Undefined
                },
            ),
            parameters,
            values,
            i + 1,
        )
    }
}

impl Machine {
    /// The machine before any program: the global scope binds the print
    /// function of the host, and there is nothing to do. The function is
    /// bound to the name `console.log`, dot included, which no source text
    /// can write as long as the grammar has no rule for the dot; a program
    /// reaches it only through a syntax tree that was built by hand.
    pub open spec fn initial() -> Machine {
        Machine {
            environment: EnvironmentView::initial().define(
                "console.log"@,
                ValueView::NativeFunction(NativeFunction::ConsoleLog),
            ),
            stack: Seq::empty(),
            state: StateView::Finished(ValueView::Undefined),
        }
    }

    /// The machine about to run the program `statements` in the global
    /// scope. What an earlier program bound there stays bound; the scopes
    /// that it left open are given up.
    pub open spec fn load(self, statements: Seq<StmtView>) -> Machine {
        Machine {
            environment: self.environment.leave(0),
            stack: seq![
                FrameView::Program { statements, next: 0, last: ValueView::Undefined },
            ],
            state: StateView::Deliver(ExecutionResultView::Nothing),
        }
    }

    /// The scopes are well-formed.
    pub open spec fn well_formed(self) -> bool {
        self.environment.well_formed()
    }

    /// What the host is to do next.
    pub open spec fn action(self) -> ActionView {
        match self.state {
            StateView::Waiting(request) => ActionView::Request(request),
            StateView::Finished(value) => ActionView::Finished(value),
            StateView::Failed(e) => ActionView::Failed(e),
            _ => ActionView::Continue,
        }
    }

    /// The machine in the given state.
    pub open spec fn goto(self, state: StateView) -> Machine {
        Machine { environment: self.environment, stack: self.stack, state }
    }

    /// The machine with `frame` on top of the stack.
    pub open spec fn push(self, frame: FrameView) -> Machine {
        Machine { environment: self.environment, stack: self.stack.push(frame), state: self.state }
    }

    /// The machine without the frame on top of the stack.
    pub open spec fn pop(self) -> Machine {
        Machine {
            environment: self.environment,
            stack: self.stack.drop_last(),
            state: self.state,
        }
    }

    /// The machine with the given scopes.
    pub open spec fn within(self, environment: EnvironmentView) -> Machine {
        Machine { environment, stack: self.stack, state: self.state }
    }

    /// The machine between two states, which is what every transition
    /// starts from: none looks at the state that it replaces.
    pub open spec fn idle(self) -> Machine {
        self.goto(StateView::Finished(ValueView::Undefined))
    }

    /// The machine about to deliver the value of an expression.
    pub open spec fn value(self, value: ValueView) -> Machine {
        self.goto(StateView::Deliver(ExecutionResultView::Value(value)))
    }

    /// The machine about to deliver what a statement left behind.
    pub open spec fn deliver(self, result: ExecutionResultView) -> Machine {
        self.goto(StateView::Deliver(result))
    }

    /// The machine that has failed with the error.
    pub open spec fn fail(self, e: ErrorView) -> Machine {
        self.goto(StateView::Failed(e))
    }

    /// The machine that waits for the host to reply to the request.
    pub open spec fn ask(self, request: RequestView) -> Machine {
        self.goto(StateView::Waiting(request))
    }

    /// One step of the machine. A machine that waits for the host, or that
    /// has ended, stays as it is.
    pub open spec fn step(self) -> Machine {
        match self.state {
            StateView::Evaluate(expr) => self.idle().evaluate(expr),
            StateView::Execute(stmt) => self.idle().execute(stmt),
            StateView::Deliver(result) => if self.stack.len() == 0 {
                self.goto(StateView::Finished(result.value()))
            } else {
                self.idle().pop().resume(self.stack.last(), result)
            },
            _ => self,
        }
    }

    /// The machine after `n` steps.
    pub open spec fn steps(self, n: nat) -> Machine
        decreases n,
    {
        if n == 0 {
            self
        } else {
            self.steps((n - 1) as nat).step()
        }
    }

    /// The machine after the host has replied. A reply is taken only by a
    /// machine that waits, and only if it answers the request; a failure of
    /// the host fails the program.
    pub open spec fn reply(self, reply: ReplyView) -> Machine {
        match self.state {
            StateView::Waiting(request) => match (request, reply) {
                (_, ReplyView::Failure(e)) => self.fail(e),
                (RequestView::Arithmetic(_, _, _), ReplyView::Number(bits)) => self.value(
                    ValueView::Number(bits),
                ),
                (RequestView::Parse(_), ReplyView::Number(bits)) => self.value(
                    ValueView::Number(bits),
                ),
                (RequestView::Display(_), ReplyView::Text(notation)) => self.value(text(notation)),
                (RequestView::Print(_), ReplyView::Done) => self.value(ValueView::Undefined),
                _ => self,
            },
            _ => self,
        }
    }

    /// Begins the evaluation of an expression.
    pub open spec fn evaluate(self, expr: ExprView) -> Machine {
        match expr {
            ExprView::Number(digits) => self.ask(RequestView::Parse(digits)),
            ExprView::String(characters) => self.value(text(characters)),
            ExprView::Boolean(value) => self.value(ValueView::Boolean(value)),
            ExprView::Null => self.value(ValueView::Null),
            ExprView::Variable(name) => match self.environment.lookup(name) {
                Some(value) => self.value(value),
                None => self.fail(ErrorView::ReferenceError { message: not_defined(name) }),
            },
            ExprView::Binary(left, op, right) => self.push(
                FrameView::BinaryLeft { op, right: *right },
            ).goto(StateView::Evaluate(*left)),
            ExprView::Unary(op, operand) => self.push(FrameView::Unary { op }).goto(
                StateView::Evaluate(*operand),
            ),
            ExprView::Conditional(condition, then_branch, else_branch) => self.push(
                FrameView::Conditional {
                    then_branch: *then_branch,
                    else_branch: match else_branch {
                        Some(branch) => Some(*branch),
                        None => None,
                    },
                },
            ).goto(StateView::Evaluate(*condition)),
            ExprView::Assign(name, value) => self.push(FrameView::Assign { name }).goto(
                StateView::Evaluate(*value),
            ),
            ExprView::Call(callee, arguments) => self.push(FrameView::Callee { arguments }).goto(
                StateView::Evaluate(*callee),
            ),
            ExprView::Function(parameters, body) => self.within(self.environment.capture()).value(
                ValueView::Function(
                    FunctionView { parameters, body: *body, closure: self.environment.current },
                ),
            ),
        }
    }

    /// Begins the execution of a statement.
    pub open spec fn execute(self, stmt: StmtView) -> Machine {
        match stmt {
            StmtView::Expression(expr) => self.push(FrameView::ExpressionStatement).goto(
                StateView::Evaluate(expr),
            ),
            StmtView::Declaration(name, initializer) => match initializer {
                Some(expr) => self.push(FrameView::Declare { name }).goto(
                    StateView::Evaluate(expr),
                ),
                None => self.within(self.environment.define(name, ValueView::Undefined)).deliver(
                    ExecutionResultView::Nothing,
                ),
            },
            StmtView::Block(statements) => self.within(
                self.environment.with_enclosing(self.environment.current),
            ).push(
                FrameView::Block { statements, next: 0, scope: self.environment.current },
            ).deliver(ExecutionResultView::Nothing),
            StmtView::If(condition, then_branch, else_branch) => self.push(
                FrameView::If {
                    then_branch: *then_branch,
                    else_branch: match else_branch {
                        Some(branch) => Some(*branch),
                        None => None,
                    },
                },
            ).goto(StateView::Evaluate(condition)),
            StmtView::While(condition, body) => self.push(
                FrameView::WhileCondition {
                    condition,
                    body: *body,
                    last: ExecutionResultView::Nothing,
                },
            ).goto(StateView::Evaluate(condition)),
            StmtView::Return(value) => match value {
                Some(expr) => self.push(FrameView::Return).goto(StateView::Evaluate(expr)),
                None => self.deliver(ExecutionResultView::Return(ValueView::Undefined)),
            },
            StmtView::Function(name, parameters, body) => self.within(
                self.environment.capture().define(
                    name,
                    ValueView::Function(
                        FunctionView {
                            parameters,
                            body: *body,
                            closure: self.environment.current,
                        },
                    ),
                ),
            ).deliver(ExecutionResultView::Nothing),
        }
    }

    /// Hands `result` to `frame`, which has been taken off the stack.
    pub open spec fn resume(self, frame: FrameView, result: ExecutionResultView) -> Machine {
        let value = result.value();
        match frame {
            FrameView::BinaryLeft { op, right } => match op {
                BinaryOp::And => if value.is_truthy() {
                    self.goto(StateView::Evaluate(right))
                } else {
                    self.value(value)
                },
                BinaryOp::Or => if value.is_truthy() {
                    self.value(value)
                } else {
                    self.goto(StateView::Evaluate(right))
                },
                _ => self.push(FrameView::BinaryRight { op, left: value }).goto(
                    StateView::Evaluate(right),
                ),
            },
            FrameView::BinaryRight { op, left } => self.binary(op, left, value),
            FrameView::Unary { op } => match op {
                UnaryOp::Negate => self.negate(value),
                UnaryOp::Not => self.value(ValueView::Boolean(!value.is_truthy())),
            },
            FrameView::Conditional { then_branch, else_branch } => if value.is_truthy() {
                self.goto(StateView::Evaluate(then_branch))
            } else {
                match else_branch {
                    Some(branch) => self.goto(StateView::Evaluate(branch)),
                    None => self.value(ValueView::Undefined),
                }
            },
            FrameView::Assign { name } => match self.environment.assign(name, value) {
                Some(environment) => self.within(environment).value(value),
                None => self.fail(ErrorView::ReferenceError { message: not_defined(name) }),
            },
            FrameView::Callee { arguments } => self.arguments(value, Seq::empty(), arguments),
            FrameView::Arguments { callee, values, arguments } => self.arguments(
                callee,
                values.push(value),
                arguments,
            ),
            FrameView::Format { text, pieces, next, purpose } => match value.display() {
                None => self.push(frame).ask(RequestView::Display(value->Number_0)),
                Some(piece) => if next < pieces.len() {
                    self.push(
                        FrameView::Format {
                            text: text + piece + purpose.separator(),
                            pieces,
                            next: next + 1,
                            purpose,
                        },
                    ).value(pieces[next as int])
                } else {
                    self.finish(purpose, text + piece)
                },
            },
            FrameView::ExpressionStatement => self.deliver(ExecutionResultView::Value(value)),
            FrameView::Declare { name } => self.within(
                self.environment.define(name, value),
            ).deliver(ExecutionResultView::Nothing),
            FrameView::If { then_branch, else_branch } => if value.is_truthy() {
                self.goto(StateView::Execute(then_branch))
            } else {
                match else_branch {
                    Some(branch) => self.goto(StateView::Execute(branch)),
                    None => self.deliver(ExecutionResultView::Nothing),
                }
            },
            FrameView::WhileCondition { condition, body, last } => if value.is_truthy() {
                self.push(FrameView::WhileBody { condition, body }).goto(
                    StateView::Execute(body),
                )
            } else {
                self.deliver(last)
            },
            FrameView::WhileBody { condition, body } => if result is Return {
                self.deliver(result)
            } else {
                self.push(FrameView::WhileCondition { condition, body, last: result }).goto(
                    StateView::Evaluate(condition),
                )
            },
            FrameView::Return => self.deliver(ExecutionResultView::Return(value)),
            FrameView::Block { statements, next, scope } => if result is Return || next
                >= statements.len() {
                self.within(self.environment.leave(scope)).deliver(result)
            } else {
                self.push(FrameView::Block { statements, next: next + 1, scope }).goto(
                    StateView::Execute(statements[next as int]),
                )
            },
            FrameView::Call { scope } => self.within(self.environment.leave(scope)).value(
                result.returned(),
            ),
            FrameView::Program { statements, next, last } => match result {
                ExecutionResultView::Return(returned) => self.goto(StateView::Finished(returned)),
                _ => {
                    let last = match result {
                        ExecutionResultView::Value(latest) => latest,
                        _ => last,
                    };
                    if next >= statements.len() {
                        self.goto(StateView::Finished(last))
                    } else {
                        self.push(FrameView::Program { statements, next: next + 1, last }).goto(
                            StateView::Execute(statements[next as int]),
                        )
                    }
                },
            },
        }
    }

    /// Goes on with a call once the values of the first arguments are
    /// there: evaluates the next argument, or makes the call if there is
    /// none left.
    pub open spec fn arguments(
        self,
        callee: ValueView,
        values: Seq<ValueView>,
        arguments: Seq<ExprView>,
    ) -> Machine {
        if values.len() < arguments.len() {
            self.push(FrameView::Arguments { callee, values, arguments }).goto(
                StateView::Evaluate(arguments[values.len() as int]),
            )
        } else {
            self.call(callee, values)
        }
    }

    /// Calls `callee` with the given values.
    ///
    /// A function of the program runs its body in a fresh scope, enclosed by
    /// the scope that the function captured, in which its parameters are
    /// bound to the values; the value of the call is what the body returns,
    /// and `undefined` where it does not return. The print function of the host has the display
    /// forms of the values put together into a line. Any other value cannot
    /// be called.
    pub open spec fn call(self, callee: ValueView, values: Seq<ValueView>) -> Machine {
        match callee {
            ValueView::Function(function) => self.within(
                bind_parameters(
                    self.environment.with_enclosing(function.closure),
                    function.parameters,
                    values,
                    0,
                ),
            ).push(FrameView::Call { scope: self.environment.current }).goto(
                StateView::Execute(function.body),
            ),
            ValueView::NativeFunction(NativeFunction::ConsoleLog) => self.format(
                values,
                Purpose::Print,
            ),
            _ => self.format(
                seq![callee.quoted(), text(" is not a function"@)],
                Purpose::TypeError,
            ),
        }
    }

    /// Begins to put the display forms of `pieces` together into one text.
    pub open spec fn format(self, pieces: Seq<ValueView>, purpose: Purpose) -> Machine {
        if pieces.len() == 0 {
            self.finish(purpose, Seq::empty())
        } else {
            self.push(FrameView::Format { text: Seq::empty(), pieces, next: 1, purpose }).value(
                pieces[0],
            )
        }
    }

    /// Puts a text that is complete to its purpose.
    pub open spec fn finish(self, purpose: Purpose, text: Seq<char>) -> Machine {
        match purpose {
            Purpose::Concat => self.value(ValueView::String(text)),
            Purpose::Print => self.ask(RequestView::Print(text)),
            Purpose::TypeError => self.fail(ErrorView::TypeError { message: text }),
        }
    }

    /// Applies a binary operator to the values of its operands.
    pub open spec fn binary(self, op: BinaryOp, left: ValueView, right: ValueView) -> Machine {
        match op {
            BinaryOp::Add => self.add(left, right),
            BinaryOp::Subtract => self.subtract(left, right),
            BinaryOp::Multiply => self.multiply(left, right),
            BinaryOp::Divide => self.divide(left, right),
            BinaryOp::Equal => self.value(ValueView::Boolean(left.is_equal(right))),
            BinaryOp::NotEqual => self.value(ValueView::Boolean(!left.is_equal(right))),
            BinaryOp::Less => self.less_than(left, right),
            BinaryOp::LessEqual => self.less_equal(left, right),
            BinaryOp::Greater => self.greater_than(left, right),
            BinaryOp::GreaterEqual => self.greater_equal(left, right),
            BinaryOp::And => self.value(
                if left.is_truthy() {
                    right
                } else {
                    left
                },
            ),
            BinaryOp::Or => self.value(
                if left.is_truthy() {
                    left
                } else {
                    right
                },
            ),
        }
    }

    /// `a + b`: the sum of two numbers; where one operand is a string, the
    /// display forms of the two, one after the other.
    pub open spec fn add(self, a: ValueView, b: ValueView) -> Machine {
        match (a, b) {
            (ValueView::Number(x), ValueView::Number(y)) => self.ask(
                RequestView::Arithmetic(ArithmeticOp::Add, x, y),
            ),
            (ValueView::String(characters), _) => self.push(
                FrameView::Format {
                    text: characters,
                    pieces: Seq::empty(),
                    next: 0,
                    purpose: Purpose::Concat,
                },
            ).value(b),
            (_, ValueView::String(_)) => self.push(
                FrameView::Format {
                    text: Seq::empty(),
                    pieces: seq![b],
                    next: 0,
                    purpose: Purpose::Concat,
                },
            ).value(a),
            _ => self.format(
                seq![text("Cannot add "@), a.quoted(), text(" and "@), b.quoted()],
                Purpose::TypeError,
            ),
        }
    }

    /// `a - b`, on numbers.
    pub open spec fn subtract(self, a: ValueView, b: ValueView) -> Machine {
        match (a, b) {
            (ValueView::Number(x), ValueView::Number(y)) => self.ask(
                RequestView::Arithmetic(ArithmeticOp::Subtract, x, y),
            ),
            _ => self.format(
                seq![text("Cannot subtract "@), b.quoted(), text(" from "@), a.quoted()],
                Purpose::TypeError,
            ),
        }
    }

    /// `a * b`, on numbers.
    pub open spec fn multiply(self, a: ValueView, b: ValueView) -> Machine {
        match (a, b) {
            (ValueView::Number(x), ValueView::Number(y)) => self.ask(
                RequestView::Arithmetic(ArithmeticOp::Multiply, x, y),
            ),
            _ => self.format(
                seq![text("Cannot multiply "@), a.quoted(), text(" and "@), b.quoted()],
                Purpose::TypeError,
            ),
        }
    }

    /// `a / b`, on numbers. A division by zero gives positive infinity,
    /// whatever the signs.
    pub open spec fn divide(self, a: ValueView, b: ValueView) -> Machine {
        match (a, b) {
            (ValueView::Number(x), ValueView::Number(y)) => if is_zero(y) {
                self.value(ValueView::Number(INFINITY))
            } else {
                self.ask(RequestView::Arithmetic(ArithmeticOp::Divide, x, y))
            },
            _ => self.format(
                seq![text("Cannot divide "@), a.quoted(), text(" by "@), b.quoted()],
                Purpose::TypeError,
            ),
        }
    }

    /// `-a`, on a number.
    pub open spec fn negate(self, a: ValueView) -> Machine {
        match a {
            ValueView::Number(x) => self.value(ValueView::Number(negation(x))),
            _ => self.format(seq![text("Cannot negate "@), a.quoted()], Purpose::TypeError),
        }
    }

    /// The complaint that `a` and `b` cannot be compared by the operator
    /// that `sign` writes.
    pub open spec fn incomparable(self, a: ValueView, sign: Seq<char>, b: ValueView) -> Machine {
        self.format(
            seq![text("Cannot compare "@), a.quoted(), text(sign), b.quoted()],
            Purpose::TypeError,
        )
    }

    /// `a < b`, on numbers.
    pub open spec fn less_than(self, a: ValueView, b: ValueView) -> Machine {
        match (a, b) {
            (ValueView::Number(x), ValueView::Number(y)) => self.value(
                ValueView::Boolean(less(x, y)),
            ),
            _ => self.incomparable(a, " < "@, b),
        }
    }

    /// `a <= b`, on numbers.
    pub open spec fn less_equal(self, a: ValueView, b: ValueView) -> Machine {
        match (a, b) {
            (ValueView::Number(x), ValueView::Number(y)) => self.value(
                ValueView::Boolean(less_equal(x, y)),
            ),
            _ => self.incomparable(a, " <= "@, b),
        }
    }

    /// `a > b`, on numbers.
    pub open spec fn greater_than(self, a: ValueView, b: ValueView) -> Machine {
        match (a, b) {
            (ValueView::Number(x), ValueView::Number(y)) => self.value(
                ValueView::Boolean(less(y, x)),
            ),
            _ => self.incomparable(a, " > "@, b),
        }
    }

    /// `a >= b`, on numbers.
    pub open spec fn greater_equal(self, a: ValueView, b: ValueView) -> Machine {
        match (a, b) {
            (ValueView::Number(x), ValueView::Number(y)) => self.value(
                ValueView::Boolean(less_equal(y, x)),
            ),
            _ => self.incomparable(a, " >= "@, b),
        }
    }
}

/// A host, as far as the machine can tell: what it replies to each request.
pub type Host = spec_fn(RequestView) -> ReplyView;

impl Machine {
    /// One transition of a machine that the host `host` drives: a machine
    /// that waits takes the reply of the host to its request, any other
    /// machine takes a step.
    pub open spec fn advance(self, host: Host) -> Machine {
        match self.state {
            StateView::Waiting(request) => self.reply(host(request)),
            _ => self.step(),
        }
    }

    /// The machine after `n` transitions.
    pub open spec fn run(self, host: Host, n: nat) -> Machine
        decreases n,
    {
        if n == 0 {
            self
        } else {
            self.run(host, (n - 1) as nat).advance(host)
        }
    }

    /// The requests that were put to the host in the first `n` transitions,
    /// in their order: what the run asked to have computed and printed.
    pub open spec fn consulted(self, host: Host, n: nat) -> Seq<RequestView>
        decreases n,
    {
        if n == 0 {
            Seq::empty()
        } else {
            let before = self.consulted(host, (n - 1) as nat);
            match self.run(host, (n - 1) as nat).state {
                StateView::Waiting(request) => before.push(request),
                _ => before,
            }
        }
    }
}

} // verus!
