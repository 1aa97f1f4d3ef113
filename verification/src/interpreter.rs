//! The interpreter: the abstract machine of [`crate::semantics`], run one
//! step at a time.
//!
//! The host drives the machine: it loads a program with
//! [`Interpreter::interpret`] and calls [`Interpreter::step`] until the
//! action that comes back is no longer [`Action::Continue`]. Where the
//! action is a [`Request`], the host does what is asked and hands the
//! outcome to [`Interpreter::resume`].

pub use crate::environment::Environment;
use crate::ast::{expr_views, name_views, stmt_views, BinaryOp, Expr, Stmt, UnaryOp};
use crate::error::JsEngineError;
use crate::number::{number_is_zero, number_less, number_less_equal, number_negate, INFINITY};
pub use crate::semantics::{ArithmeticOp, Purpose};
use crate::semantics::{
    bind_parameters, text, ActionView, FrameView, Machine, ReplyView, RequestView, StateView,
};
use crate::value::{value_views, ValueView};
pub use crate::value::{ExecutionResult, JsFunction, NativeFunction, Value};
use vstd::prelude::*;
use vstd::string::StringExecFns;

verus! {

/// What the machine asks of its host.
#[derive(Debug)]
pub enum Request {
    /// Apply the operation to the two numbers and reply with the number
    /// that comes out.
    Arithmetic(ArithmeticOp, u64, u64),
    /// Convert the decimal notation to the number nearest to it and reply
    /// with that number.
    Parse(String),
    /// Convert the number to its decimal notation and reply with that
    /// text.
    Display(u64),
    /// Print the text on a line of its own and reply that it is done.
    Print(String),
}

/// What the host replies to a request.
#[derive(Debug)]
pub enum Reply {
    Number(u64),
    Text(String),
    Done,
    /// The host could not do what was asked; the program fails with the
    /// error.
    Failure(JsEngineError),
}

/// What the host is to do after a step of the machine.
#[derive(Debug)]
pub enum Action<'a> {
    /// Let the machine take its next step.
    Continue,
    /// Do what the request asks, and hand the machine the reply.
    Request(Request),
    /// Nothing more: the program has run to its end and left the value.
    Finished(Value<'a>),
    /// Nothing more: the program has failed with the error.
    Failed(JsEngineError),
}

impl View for Request {
    type V = RequestView;

    open spec fn view(&self) -> RequestView {
        match self {
            Request::Arithmetic(op, a, b) => RequestView::Arithmetic(*op, *a, *b),
            Request::Parse(digits) => RequestView::Parse(digits@),
            Request::Display(bits) => RequestView::Display(*bits),
            Request::Print(line) => RequestView::Print(line@),
        }
    }
}

impl View for Reply {
    type V = ReplyView;

    open spec fn view(&self) -> ReplyView {
        match self {
            Reply::Number(bits) => ReplyView::Number(*bits),
            Reply::Text(notation) => ReplyView::Text(notation@),
            Reply::Done => ReplyView::Done,
            Reply::Failure(e) => ReplyView::Failure(e@),
        }
    }
}

impl<'a> View for Action<'a> {
    type V = ActionView;

    open spec fn view(&self) -> ActionView {
        match self {
            Action::Continue => ActionView::Continue,
            Action::Request(request) => ActionView::Request(request@),
            Action::Finished(value) => ActionView::Finished(value@),
            Action::Failed(e) => ActionView::Failed(e@),
        }
    }
}

impl Clone for Request {
    fn clone(&self) -> (copy: Self)
        ensures
            copy == *self,
    {
        match self {
            Request::Arithmetic(op, a, b) => Request::Arithmetic(*op, *a, *b),
            Request::Parse(digits) => Request::Parse(digits.clone()),
            Request::Display(bits) => Request::Display(*bits),
            Request::Print(line) => Request::Print(line.clone()),
        }
    }
}

/// What is to be done with a result, once it is there.
enum Frame<'a> {
    BinaryLeft { op: BinaryOp, right: &'a Expr },
    BinaryRight { op: BinaryOp, left: Value<'a> },
    Unary { op: UnaryOp },
    Conditional { then_branch: &'a Expr, else_branch: Option<&'a Expr> },
    Assign { name: &'a String },
    Callee { arguments: &'a Vec<Expr> },
    Arguments { callee: Value<'a>, values: Vec<Value<'a>>, arguments: &'a Vec<Expr> },
    Format { text: String, pieces: Vec<Value<'a>>, next: usize, purpose: Purpose },
    ExpressionStatement,
    Declare { name: &'a String },
    If { then_branch: &'a Stmt, else_branch: Option<&'a Stmt> },
    WhileCondition { condition: &'a Expr, body: &'a Stmt, last: ExecutionResult<'a> },
    WhileBody { condition: &'a Expr, body: &'a Stmt },
    Return,
    Block { statements: &'a Vec<Stmt>, next: usize, scope: usize },
    Call { scope: usize },
    Program { statements: &'a Vec<Stmt>, next: usize, last: Value<'a> },
}

/// What the machine is about to do.
enum State<'a> {
    Evaluate(&'a Expr),
    Execute(&'a Stmt),
    Deliver(ExecutionResult<'a>),
    Waiting(Request),
    Finished(Value<'a>),
    Failed(JsEngineError),
}

impl<'a> View for Frame<'a> {
    type V = FrameView;

    closed spec fn view(&self) -> FrameView {
        match self {
            Frame::BinaryLeft { op, right } => FrameView::BinaryLeft { op: *op, right: right@ },
            Frame::BinaryRight { op, left } => FrameView::BinaryRight { op: *op, left: left@ },
            Frame::Unary { op } => FrameView::Unary { op: *op },
            Frame::Conditional { then_branch, else_branch } => FrameView::Conditional {
                then_branch: then_branch@,
                else_branch: match else_branch {
                    Some(branch) => Some(branch@),
                    None => None,
                },
            },
            Frame::Assign { name } => FrameView::Assign { name: name@ },
            Frame::Callee { arguments } => FrameView::Callee { arguments: expr_views(arguments@) },
            Frame::Arguments { callee, values, arguments } => FrameView::Arguments {
                callee: callee@,
                values: value_views(values@),
                arguments: expr_views(arguments@),
            },
            Frame::Format { text, pieces, next, purpose } => FrameView::Format {
                text: text@,
                pieces: value_views(pieces@),
                next: *next as nat,
                purpose: *purpose,
            },
            Frame::ExpressionStatement => FrameView::ExpressionStatement,
            Frame::Declare { name } => FrameView::Declare { name: name@ },
            Frame::If { then_branch, else_branch } => FrameView::If {
                then_branch: then_branch@,
                else_branch: match else_branch {
                    Some(branch) => Some(branch@),
                    None => None,
                },
            },
            Frame::WhileCondition { condition, body, last } => FrameView::WhileCondition {
                condition: condition@,
                body: body@,
                last: last@,
            },
            Frame::WhileBody { condition, body } => FrameView::WhileBody {
                condition: condition@,
                body: body@,
            },
            Frame::Return => FrameView::Return,
            Frame::Block { statements, next, scope } => FrameView::Block {
                statements: stmt_views(statements@),
                next: *next as nat,
                scope: *scope as nat,
            },
            Frame::Call { scope } => FrameView::Call { scope: *scope as nat },
            Frame::Program { statements, next, last } => FrameView::Program {
                statements: stmt_views(statements@),
                next: *next as nat,
                last: last@,
            },
        }
    }
}

impl<'a> View for State<'a> {
    type V = StateView;

    closed spec fn view(&self) -> StateView {
        match self {
            State::Evaluate(expr) => StateView::Evaluate(expr@),
            State::Execute(stmt) => StateView::Execute(stmt@),
            State::Deliver(result) => StateView::Deliver(result@),
            State::Waiting(request) => StateView::Waiting(request@),
            State::Finished(value) => StateView::Finished(value@),
            State::Failed(e) => StateView::Failed(e@),
        }
    }
}

/// The models of a stack of frames, one for one.
spec fn frame_views<'a>(frames: Seq<Frame<'a>>) -> Seq<FrameView> {
    frames.map_values(|frame: Frame<'a>| frame@)
}

/// An interpreter: the scopes of the program, the stack of frames, and
/// what is to be done next.
pub struct Interpreter<'a> {
    environment: Environment<'a>,
    stack: Vec<Frame<'a>>,
    state: State<'a>,
}

impl<'a> View for Interpreter<'a> {
    type V = Machine;

    closed spec fn view(&self) -> Machine {
        Machine {
            environment: self.environment@,
            stack: frame_views(self.stack@),
            state: self.state@,
        }
    }
}

impl<'a> Interpreter<'a> {
    /// An interpreter that has no program yet. Its global scope binds
    /// `console.log` to the print function of the host.
    pub fn new() -> (interpreter: Interpreter<'a>)
        ensures
            interpreter@ == Machine::initial(),
            interpreter@.well_formed(),
    {
        let mut environment = Environment::new();
        environment.define(
            String::from_str("console.log"),
            Value::NativeFunction(NativeFunction::ConsoleLog),
        );
        let interpreter = Interpreter {
            environment,
            stack: Vec::new(),
            state: State::Finished(Value::Undefined),
        };
        assert(interpreter@.stack =~= Seq::<FrameView>::empty());
        interpreter
    }

    /// Loads the program `statements`. It runs in the global scope, in
    /// which what earlier programs declared is still bound; whatever was
    /// running is given up, and so are the scopes that it left open.
    pub fn interpret(&mut self, statements: &'a Vec<Stmt>)
        requires
            old(self)@.well_formed(),
        ensures
            final(self)@ == old(self)@.load(stmt_views(statements@)),
            final(self)@.well_formed(),
    {
        self.environment.leave(0);
        self.stack = Vec::new();
        self.stack.push(Frame::Program { statements, next: 0, last: Value::Undefined });
        self.state = State::Deliver(ExecutionResult::Nothing);
        assert(self@.stack =~= old(self)@.load(stmt_views(statements@)).stack);
    }

    /// What the host is to do next.
    pub fn action(&self) -> (action: Action<'a>)
        ensures
            action@ == self@.action(),
    {
        match &self.state {
            State::Waiting(request) => Action::Request(request.clone()),
            State::Finished(value) => Action::Finished(value.clone()),
            State::Failed(e) => Action::Failed(e.clone()),
            _ => Action::Continue,
        }
    }

    /// Hands the machine the reply of the host to the request that it
    /// waits for. A reply that does not answer the request, or that
    /// nothing waits for, is not taken: the machine stays as it is.
    pub fn resume(&mut self, reply: Reply)
        requires
            old(self)@.well_formed(),
        ensures
            final(self)@ == old(self)@.reply(reply@),
            final(self)@.well_formed(),
    {
        let wanted: u8 = match &self.state {
            State::Waiting(Request::Arithmetic(_, _, _)) => 1,
            State::Waiting(Request::Parse(_)) => 1,
            State::Waiting(Request::Display(_)) => 2,
            State::Waiting(Request::Print(_)) => 3,
            _ => 0,
        };
        if wanted == 0 {
            return ;
        }
        match reply {
            Reply::Failure(e) => {
                self.state = State::Failed(e);
            },
            Reply::Number(bits) => {
                if wanted == 1 {
                    self.state = State::Deliver(ExecutionResult::Value(Value::Number(bits)));
                }
            },
            Reply::Text(notation) => {
                if wanted == 2 {
                    self.state = State::Deliver(ExecutionResult::Value(Value::String(notation)));
                }
            },
            Reply::Done => {
                if wanted == 3 {
                    self.state = State::Deliver(ExecutionResult::Value(Value::Undefined));
                }
            },
        }
    }

    fn goto(&mut self, state: State<'a>)
        ensures
            final(self)@ == old(self)@.goto(state@),
    {
        self.state = state;
    }

    fn push(&mut self, frame: Frame<'a>)
        ensures
            final(self)@ == old(self)@.push(frame@),
    {
        self.stack.push(frame);
        assert(self@.stack =~= old(self)@.push(frame@).stack);
    }

    fn value(&mut self, value: Value<'a>)
        ensures
            final(self)@ == old(self)@.value(value@),
    {
        self.state = State::Deliver(ExecutionResult::Value(value));
    }

    fn deliver(&mut self, result: ExecutionResult<'a>)
        ensures
            final(self)@ == old(self)@.deliver(result@),
    {
        self.state = State::Deliver(result);
    }

    fn fail(&mut self, e: JsEngineError)
        ensures
            final(self)@ == old(self)@.fail(e@),
    {
        self.state = State::Failed(e);
    }

    fn ask(&mut self, request: Request)
        ensures
            final(self)@ == old(self)@.ask(request@),
    {
        self.state = State::Waiting(request);
    }

    /// Binds `name` to `value` in the scope in force.
    fn define(&mut self, name: String, value: Value<'a>)
        requires
            old(self)@.well_formed(),
        ensures
            final(self)@ == old(self)@.within(old(self)@.environment.define(name@, value@)),
            final(self)@.well_formed(),
    {
        self.environment.define(name, value);
    }

    /// Ends the block or the call that was entered from scope `scope`.
    fn leave(&mut self, scope: usize)
        requires
            old(self)@.well_formed(),
        ensures
            final(self)@ == old(self)@.within(old(self)@.environment.leave(scope as nat)),
            final(self)@.well_formed(),
    {
        self.environment.leave(scope);
    }

    /// Takes one step. A machine that waits for the host, or whose program
    /// has ended, stays as it is. The action tells the host what to do
    /// next.
    pub fn step(&mut self) -> (action: Action<'a>)
        requires
            old(self)@.well_formed(),
        ensures
            final(self)@ == old(self)@.step(),
            final(self)@.well_formed(),
            action@ == final(self)@.action(),
    {
        let mut state = State::Finished(Value::Undefined);
        std::mem::swap(&mut self.state, &mut state);
        assert(self@ == old(self)@.idle());
        match state {
            State::Evaluate(expr) => {
                self.evaluate(expr);
            },
            State::Execute(stmt) => {
                self.execute(stmt);
            },
            State::Deliver(result) => {
                match self.stack.pop() {
                    Some(frame) => {
                        assert(self@.stack =~= old(self)@.stack.drop_last());
                        assert(frame@ == old(self)@.stack.last());
                        self.resume_frame(frame, result);
                    },
                    None => {
                        assert(old(self)@.stack.len() == 0);
                        self.goto(State::Finished(result.into_value()));
                    },
                }
            },
            other => {
                self.state = other;
            },
        }
        self.action()
    }

    /// Takes steps until there is something for the host to do, but
    /// `fuel` steps at the most, and says how many it took. The action that
    /// comes back is [`Action::Continue`] only if the fuel ran out.
    pub fn run(&mut self, fuel: usize) -> (outcome: (Action<'a>, usize))
        requires
            old(self)@.well_formed(),
        ensures
            outcome.1 <= fuel,
            final(self)@ == old(self)@.steps(outcome.1 as nat),
            final(self)@.well_formed(),
            outcome.0@ == final(self)@.action(),
            outcome.0@ is Continue ==> outcome.1 == fuel,
            forall|k: nat| 1 <= k < outcome.1 ==> old(self)@.steps(k).action() is Continue,
    {
        let mut action = self.action();
        let mut taken: usize = 0;
        while taken < fuel
            invariant_except_break
                taken == 0 || action@ is Continue,
            invariant
                taken <= fuel,
                self@ == old(self)@.steps(taken as nat),
                self@.well_formed(),
                action@ == self@.action(),
                forall|k: nat| 1 <= k < taken ==> old(self)@.steps(k).action() is Continue,
            ensures
                action@ is Continue ==> taken == fuel,
            decreases fuel - taken,
        {
            action = self.step();
            taken = taken + 1;
            if !matches!(action, Action::Continue) {
                break ;
            }
        }
        (action, taken)
    }

    /// The scopes of the program.
    pub fn environment(&self) -> (environment: &Environment<'a>)
        ensures
            environment@ == self@.environment,
    {
        &self.environment
    }

    /// Whether the scopes are well-formed, which every operation asks for
    /// and ensures.
    pub fn is_well_formed(&self) -> (well_formed: bool)
        ensures
            well_formed == self@.well_formed(),
    {
        self.environment.is_well_formed()
    }

    /// Begins the evaluation of an expression.
    fn evaluate(&mut self, expr: &'a Expr)
        requires
            old(self)@.well_formed(),
        ensures
            final(self)@ == old(self)@.evaluate(expr@),
            final(self)@.well_formed(),
    {
        match expr {
            Expr::Number(digits) => {
                self.ask(Request::Parse(digits.clone()));
            },
            Expr::String(characters) => {
                self.value(Value::String(characters.clone()));
            },
            Expr::Boolean(value) => {
                self.value(Value::Boolean(*value));
            },
            Expr::Null => {
                self.value(Value::Null);
            },
            Expr::Variable(name) => {
                match self.environment.get(name) {
                    Ok(value) => {
                        self.value(value);
                    },
                    Err(e) => {
                        self.fail(e);
                    },
                }
            },
            Expr::Binary(left, op, right) => {
                self.push(Frame::BinaryLeft { op: *op, right: &**right });
                self.goto(State::Evaluate(&**left));
            },
            Expr::Unary(op, operand) => {
                self.push(Frame::Unary { op: *op });
                self.goto(State::Evaluate(&**operand));
            },
            Expr::Conditional(condition, then_branch, else_branch) => {
                let else_branch: Option<&'a Expr> = match else_branch {
                    Some(branch) => Some(&**branch),
                    None => None,
                };
                self.push(Frame::Conditional { then_branch: &**then_branch, else_branch });
                self.goto(State::Evaluate(&**condition));
            },
            Expr::Assign(name, value) => {
                self.push(Frame::Assign { name });
                self.goto(State::Evaluate(&**value));
            },
            Expr::Call(callee, arguments) => {
                self.push(Frame::Callee { arguments });
                self.goto(State::Evaluate(&**callee));
            },
            Expr::Function(parameters, body) => {
                let closure = self.environment.capture();
                self.value(Value::Function(JsFunction { parameters, body: &**body, closure }));
            },
        }
    }

    /// Begins the execution of a statement.
    fn execute(&mut self, stmt: &'a Stmt)
        requires
            old(self)@.well_formed(),
        ensures
            final(self)@ == old(self)@.execute(stmt@),
            final(self)@.well_formed(),
    {
        match stmt {
            Stmt::Expression(expr) => {
                self.push(Frame::ExpressionStatement);
                self.goto(State::Evaluate(expr));
            },
            Stmt::Declaration(name, initializer) => {
                match initializer {
                    Some(expr) => {
                        self.push(Frame::Declare { name });
                        self.goto(State::Evaluate(expr));
                    },
                    None => {
                        self.define(name.clone(), Value::Undefined);
                        self.deliver(ExecutionResult::Nothing);
                    },
                }
            },
            Stmt::Block(statements) => {
                let scope = self.environment.current();
                self.environment.with_enclosing(scope);
                self.push(Frame::Block { statements, next: 0, scope });
                self.deliver(ExecutionResult::Nothing);
            },
            Stmt::If(condition, then_branch, else_branch) => {
                let else_branch: Option<&'a Stmt> = match else_branch {
                    Some(branch) => Some(&**branch),
                    None => None,
                };
                self.push(Frame::If { then_branch: &**then_branch, else_branch });
                self.goto(State::Evaluate(condition));
            },
            Stmt::While(condition, body) => {
                self.push(
                    Frame::WhileCondition {
                        condition,
                        body: &**body,
                        last: ExecutionResult::Nothing,
                    },
                );
                self.goto(State::Evaluate(condition));
            },
            Stmt::Return(value) => {
                match value {
                    Some(expr) => {
                        self.push(Frame::Return);
                        self.goto(State::Evaluate(expr));
                    },
                    None => {
                        self.deliver(ExecutionResult::Return(Value::Undefined));
                    },
                }
            },
            Stmt::Function(name, parameters, body) => {
                let closure = self.environment.capture();
                self.define(
                    name.clone(),
                    Value::Function(JsFunction { parameters, body: &**body, closure }),
                );
                self.deliver(ExecutionResult::Nothing);
            },
        }
    }

    /// Hands `result` to `frame`, which has been taken off the stack.
    fn resume_frame(&mut self, frame: Frame<'a>, result: ExecutionResult<'a>)
        requires
            old(self)@.well_formed(),
        ensures
            final(self)@ == old(self)@.resume(frame@, result@),
            final(self)@.well_formed(),
    {
        match frame {
            Frame::BinaryLeft { op, right } => {
                let value = result.into_value();
                match op {
                    BinaryOp::And => {
                        if value.is_truthy() {
                            self.goto(State::Evaluate(right));
                        } else {
                            self.value(value);
                        }
                    },
                    BinaryOp::Or => {
                        if value.is_truthy() {
                            self.value(value);
                        } else {
                            self.goto(State::Evaluate(right));
                        }
                    },
                    _ => {
                        self.push(Frame::BinaryRight { op, left: value });
                        self.goto(State::Evaluate(right));
                    },
                }
            },
            Frame::BinaryRight { op, left } => {
                self.binary(op, left, result.into_value());
            },
            Frame::Unary { op } => {
                let value = result.into_value();
                match op {
                    UnaryOp::Negate => {
                        self.negate(value);
                    },
                    UnaryOp::Not => {
                        self.value(Value::Boolean(!value.is_truthy()));
                    },
                }
            },
            Frame::Conditional { then_branch, else_branch } => {
                if result.into_value().is_truthy() {
                    self.goto(State::Evaluate(then_branch));
                } else {
                    match else_branch {
                        Some(branch) => {
                            self.goto(State::Evaluate(branch));
                        },
                        None => {
                            self.value(Value::Undefined);
                        },
                    }
                }
            },
            Frame::Assign { name } => {
                let value = result.into_value();
                match self.environment.assign(name, value.clone()) {
                    Ok(()) => {
                        self.value(value);
                    },
                    Err(e) => {
                        self.fail(e);
                    },
                }
            },
            Frame::Callee { arguments } => {
                let values: Vec<Value<'a>> = Vec::new();
                assert(value_views(values@) =~= Seq::<ValueView>::empty());
                self.arguments(result.into_value(), values, arguments);
            },
            Frame::Arguments { callee, values, arguments } => {
                let mut values = values;
                let value = result.into_value();
                assert(value_views(values@.push(value)) =~= value_views(values@).push(value@));
                values.push(value);
                self.arguments(callee, values, arguments);
            },
            Frame::Format { text, pieces, next, purpose } => {
                let value = result.into_value();
                match value.display() {
                    None => {
                        let bits = match value {
                            Value::Number(bits) => bits,
                            _ => 0,
                        };
                        self.push(Frame::Format { text, pieces, next, purpose });
                        self.ask(Request::Display(bits));
                    },
                    Some(piece) => {
                        let mut text = text;
                        text.append(piece.as_str());
                        if next < pieces.len() {
                            match purpose {
                                Purpose::Print => {
                                    text.push(' ');
                                },
                                _ => {},
                            }
                            assert(text@ =~= frame@->Format_text + piece@ + purpose.separator());
                            let following = pieces[next].clone();
                            self.push(Frame::Format { text, pieces, next: next + 1, purpose });
                            self.value(following);
                        } else {
                            self.finish(purpose, text);
                        }
                    },
                }
            },
            Frame::ExpressionStatement => {
                self.deliver(ExecutionResult::Value(result.into_value()));
            },
            Frame::Declare { name } => {
                self.define(name.clone(), result.into_value());
                self.deliver(ExecutionResult::Nothing);
            },
            Frame::If { then_branch, else_branch } => {
                if result.into_value().is_truthy() {
                    self.goto(State::Execute(then_branch));
                } else {
                    match else_branch {
                        Some(branch) => {
                            self.goto(State::Execute(branch));
                        },
                        None => {
                            self.deliver(ExecutionResult::Nothing);
                        },
                    }
                }
            },
            Frame::WhileCondition { condition, body, last } => {
                if result.into_value().is_truthy() {
                    self.push(Frame::WhileBody { condition, body });
                    self.goto(State::Execute(body));
                } else {
                    self.deliver(last);
                }
            },
            Frame::WhileBody { condition, body } => {
                if matches!(result, ExecutionResult::Return(_)) {
                    self.deliver(result);
                } else {
                    self.push(Frame::WhileCondition { condition, body, last: result });
                    self.goto(State::Evaluate(condition));
                }
            },
            Frame::Return => {
                self.deliver(ExecutionResult::Return(result.into_value()));
            },
            Frame::Block { statements, next, scope } => {
                if matches!(result, ExecutionResult::Return(_)) || next >= statements.len() {
                    self.leave(scope);
                    self.deliver(result);
                } else {
                    let stmt = &statements[next];
                    self.push(Frame::Block { statements, next: next + 1, scope });
                    self.goto(State::Execute(stmt));
                }
            },
            Frame::Call { scope } => {
                self.leave(scope);
                self.value(result.into_returned());
            },
            Frame::Program { statements, next, last } => {
                match result {
                    ExecutionResult::Return(returned) => {
                        self.goto(State::Finished(returned));
                    },
                    other => {
                        let last = match other {
                            ExecutionResult::Value(latest) => latest,
                            _ => last,
                        };
                        if next >= statements.len() {
                            self.goto(State::Finished(last));
                        } else {
                            let stmt = &statements[next];
                            self.push(Frame::Program { statements, next: next + 1, last });
                            self.goto(State::Execute(stmt));
                        }
                    },
                }
            },
        }
    }

    /// Goes on with a call once the values of the first arguments are
    /// there.
    fn arguments(&mut self, callee: Value<'a>, values: Vec<Value<'a>>, arguments: &'a Vec<Expr>)
        requires
            old(self)@.well_formed(),
        ensures
            final(self)@ == old(self)@.arguments(
                callee@,
                value_views(values@),
                expr_views(arguments@),
            ),
            final(self)@.well_formed(),
    {
        if values.len() < arguments.len() {
            let next = &arguments[values.len()];
            self.push(Frame::Arguments { callee, values, arguments });
            self.goto(State::Evaluate(next));
        } else {
            self.call(callee, values);
        }
    }

    /// Calls `callee` with the given values.
    fn call(&mut self, callee: Value<'a>, values: Vec<Value<'a>>)
        requires
            old(self)@.well_formed(),
        ensures
            final(self)@ == old(self)@.call(callee@, value_views(values@)),
            final(self)@.well_formed(),
    {
        match callee {
            Value::Function(function) => {
                let caller = self.environment.current();
                self.environment.with_enclosing(function.closure);
                let ghost entered = self@.environment;
                let ghost names = name_views(function.parameters@);
                let mut i: usize = 0;
                while i < function.parameters.len()
                    invariant
                        self@.well_formed(),
                        self@.stack == old(self)@.stack,
                        self@.state == old(self)@.state,
                        i <= function.parameters@.len(),
                        names == name_views(function.parameters@),
                        bind_parameters(self@.environment, names, value_views(values@), i as nat)
                            == bind_parameters(entered, names, value_views(values@), 0),
                    decreases function.parameters@.len() - i,
                {
                    let value = if i < values.len() {
                        values[i].clone()
                    } else {
                        Value::Undefined
                    };
                    self.define(function.parameters[i].clone(), value);
                    i = i + 1;
                }
                self.push(Frame::Call { scope: caller });
                self.goto(State::Execute(function.body));
            },
            Value::NativeFunction(NativeFunction::ConsoleLog) => {
                self.format(values, Purpose::Print);
            },
            other => {
                let mut pieces: Vec<Value<'a>> = Vec::new();
                pieces.push(other.quoted());
                pieces.push(Value::String(String::from_str(" is not a function")));
                assert(value_views(pieces@) =~= seq![
                    other@.quoted(),
                    text(" is not a function"@),
                ]);
                self.format(pieces, Purpose::TypeError);
            },
        }
    }

    /// Begins to put the display forms of `pieces` together into one text.
    fn format(&mut self, pieces: Vec<Value<'a>>, purpose: Purpose)
        ensures
            final(self)@ == old(self)@.format(value_views(pieces@), purpose),
            final(self)@.well_formed() == old(self)@.well_formed(),
    {
        if pieces.len() == 0 {
            self.finish(purpose, String::new());
        } else {
            let first = pieces[0].clone();
            self.push(Frame::Format { text: String::new(), pieces, next: 1, purpose });
            self.value(first);
        }
    }

    /// Puts a text that is complete to its purpose.
    fn finish(&mut self, purpose: Purpose, text: String)
        ensures
            final(self)@ == old(self)@.finish(purpose, text@),
            final(self)@.well_formed() == old(self)@.well_formed(),
    {
        match purpose {
            Purpose::Concat => {
                self.value(Value::String(text));
            },
            Purpose::Print => {
                self.ask(Request::Print(text));
            },
            Purpose::TypeError => {
                self.fail(JsEngineError::TypeError { message: text });
            },
        }
    }

    /// The pieces of the message that says what cannot be done with `a`
    /// and `b`.
    fn phrase(before: &str, a: &Value<'a>, between: &str, b: &Value<'a>) -> (pieces: Vec<
        Value<'a>,
    >)
        ensures
            value_views(pieces@) == seq![
                text(before@),
                a@.quoted(),
                text(between@),
                b@.quoted(),
            ],
    {
        let mut pieces: Vec<Value<'a>> = Vec::new();
        pieces.push(Value::String(String::from_str(before)));
        pieces.push(a.quoted());
        pieces.push(Value::String(String::from_str(between)));
        pieces.push(b.quoted());
        assert(value_views(pieces@) =~= seq![
            text(before@),
            a@.quoted(),
            text(between@),
            b@.quoted(),
        ]);
        pieces
    }

    /// Applies a binary operator to the values of its operands.
    fn binary(&mut self, op: BinaryOp, left: Value<'a>, right: Value<'a>)
        ensures
            final(self)@ == old(self)@.binary(op, left@, right@),
            final(self)@.well_formed() == old(self)@.well_formed(),
    {
        match op {
            BinaryOp::Add => {
                self.add(left, right);
            },
            BinaryOp::Subtract => {
                self.subtract(left, right);
            },
            BinaryOp::Multiply => {
                self.multiply(left, right);
            },
            BinaryOp::Divide => {
                self.divide(left, right);
            },
            BinaryOp::Equal => {
                self.value(Value::Boolean(left.is_equal(&right)));
            },
            BinaryOp::NotEqual => {
                self.value(Value::Boolean(!left.is_equal(&right)));
            },
            BinaryOp::Less => {
                self.less_than(left, right);
            },
            BinaryOp::LessEqual => {
                self.less_equal(left, right);
            },
            BinaryOp::Greater => {
                self.greater_than(left, right);
            },
            BinaryOp::GreaterEqual => {
                self.greater_equal(left, right);
            },
            BinaryOp::And => {
                if left.is_truthy() {
                    self.value(right);
                } else {
                    self.value(left);
                }
            },
            BinaryOp::Or => {
                if left.is_truthy() {
                    self.value(left);
                } else {
                    self.value(right);
                }
            },
        }
    }

    /// `a + b`.
    fn add(&mut self, a: Value<'a>, b: Value<'a>)
        ensures
            final(self)@ == old(self)@.add(a@, b@),
            final(self)@.well_formed() == old(self)@.well_formed(),
    {
        match a {
            Value::Number(x) => match b {
                Value::Number(y) => {
                    self.ask(Request::Arithmetic(ArithmeticOp::Add, x, y));
                },
                Value::String(_) => {
                    self.prepend(Value::Number(x), b);
                },
                _ => {
                    let pieces = Self::phrase("Cannot add ", &Value::Number(x), " and ", &b);
                    self.format(pieces, Purpose::TypeError);
                },
            },
            Value::String(characters) => {
                let pieces: Vec<Value<'a>> = Vec::new();
                assert(value_views(pieces@) =~= Seq::<ValueView>::empty());
                self.push(
                    Frame::Format { text: characters, pieces, next: 0, purpose: Purpose::Concat },
                );
                self.value(b);
            },
            other => match b {
                Value::String(_) => {
                    self.prepend(other, b);
                },
                _ => {
                    let pieces = Self::phrase("Cannot add ", &other, " and ", &b);
                    self.format(pieces, Purpose::TypeError);
                },
            },
        }
    }

    /// Begins to put the display form of `a` before the string `b`.
    fn prepend(&mut self, a: Value<'a>, b: Value<'a>)
        ensures
            final(self)@ == old(self)@.push(
                FrameView::Format {
                    text: Seq::empty(),
                    pieces: seq![b@],
                    next: 0,
                    purpose: Purpose::Concat,
                },
            ).value(a@),
    {
        let mut pieces: Vec<Value<'a>> = Vec::new();
        pieces.push(b);
        assert(value_views(pieces@) =~= seq![b@]);
        self.push(Frame::Format { text: String::new(), pieces, next: 0, purpose: Purpose::Concat });
        self.value(a);
    }

    /// `a - b`.
    fn subtract(&mut self, a: Value<'a>, b: Value<'a>)
        ensures
            final(self)@ == old(self)@.subtract(a@, b@),
            final(self)@.well_formed() == old(self)@.well_formed(),
    {
        match (&a, &b) {
            (Value::Number(x), Value::Number(y)) => {
                self.ask(Request::Arithmetic(ArithmeticOp::Subtract, *x, *y));
            },
            _ => {
                let pieces = Self::phrase("Cannot subtract ", &b, " from ", &a);
                self.format(pieces, Purpose::TypeError);
            },
        }
    }

    /// `a * b`.
    fn multiply(&mut self, a: Value<'a>, b: Value<'a>)
        ensures
            final(self)@ == old(self)@.multiply(a@, b@),
            final(self)@.well_formed() == old(self)@.well_formed(),
    {
        match (&a, &b) {
            (Value::Number(x), Value::Number(y)) => {
                self.ask(Request::Arithmetic(ArithmeticOp::Multiply, *x, *y));
            },
            _ => {
                let pieces = Self::phrase("Cannot multiply ", &a, " and ", &b);
                self.format(pieces, Purpose::TypeError);
            },
        }
    }

    /// `a / b`. A division by zero gives positive infinity.
    fn divide(&mut self, a: Value<'a>, b: Value<'a>)
        ensures
            final(self)@ == old(self)@.divide(a@, b@),
            final(self)@.well_formed() == old(self)@.well_formed(),
    {
        match (&a, &b) {
            (Value::Number(x), Value::Number(y)) => {
                if number_is_zero(*y) {
                    self.value(Value::Number(INFINITY));
                } else {
                    self.ask(Request::Arithmetic(ArithmeticOp::Divide, *x, *y));
                }
            },
            _ => {
                let pieces = Self::phrase("Cannot divide ", &a, " by ", &b);
                self.format(pieces, Purpose::TypeError);
            },
        }
    }

    /// `-a`.
    fn negate(&mut self, a: Value<'a>)
        ensures
            final(self)@ == old(self)@.negate(a@),
            final(self)@.well_formed() == old(self)@.well_formed(),
    {
        match a {
            Value::Number(x) => {
                self.value(Value::Number(number_negate(x)));
            },
            other => {
                let mut pieces: Vec<Value<'a>> = Vec::new();
                pieces.push(Value::String(String::from_str("Cannot negate ")));
                pieces.push(other.quoted());
                assert(value_views(pieces@) =~= seq![text("Cannot negate "@), other@.quoted()]);
                self.format(pieces, Purpose::TypeError);
            },
        }
    }

    /// Complains that `a` and `b` cannot be compared by the operator that
    /// `sign` writes.
    fn incomparable(&mut self, a: &Value<'a>, sign: &str, b: &Value<'a>)
        ensures
            final(self)@ == old(self)@.incomparable(a@, sign@, b@),
            final(self)@.well_formed() == old(self)@.well_formed(),
    {
        let pieces = Self::phrase("Cannot compare ", a, sign, b);
        self.format(pieces, Purpose::TypeError);
    }

    /// `a < b`.
    fn less_than(&mut self, a: Value<'a>, b: Value<'a>)
        ensures
            final(self)@ == old(self)@.less_than(a@, b@),
            final(self)@.well_formed() == old(self)@.well_formed(),
    {
        match (&a, &b) {
            (Value::Number(x), Value::Number(y)) => {
                self.value(Value::Boolean(number_less(*x, *y)));
            },
            _ => {
                self.incomparable(&a, " < ", &b);
            },
        }
    }

    /// `a <= b`.
    fn less_equal(&mut self, a: Value<'a>, b: Value<'a>)
        ensures
            final(self)@ == old(self)@.less_equal(a@, b@),
            final(self)@.well_formed() == old(self)@.well_formed(),
    {
        match (&a, &b) {
            (Value::Number(x), Value::Number(y)) => {
                self.value(Value::Boolean(number_less_equal(*x, *y)));
            },
            _ => {
                self.incomparable(&a, " <= ", &b);
            },
        }
    }

    /// `a > b`.
    fn greater_than(&mut self, a: Value<'a>, b: Value<'a>)
        ensures
            final(self)@ == old(self)@.greater_than(a@, b@),
            final(self)@.well_formed() == old(self)@.well_formed(),
    {
        match (&a, &b) {
            (Value::Number(x), Value::Number(y)) => {
                self.value(Value::Boolean(number_less(*y, *x)));
            },
            _ => {
                self.incomparable(&a, " > ", &b);
            },
        }
    }

    /// `a >= b`.
    fn greater_equal(&mut self, a: Value<'a>, b: Value<'a>)
        ensures
            final(self)@ == old(self)@.greater_equal(a@, b@),
            final(self)@.well_formed() == old(self)@.well_formed(),
    {
        match (&a, &b) {
            (Value::Number(x), Value::Number(y)) => {
                self.value(Value::Boolean(number_less_equal(*y, *x)));
            },
            _ => {
                self.incomparable(&a, " >= ", &b);
            },
        }
    }
}

} // verus!
