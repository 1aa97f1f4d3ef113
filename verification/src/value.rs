//! The values that a program computes with.

use crate::ast::{name_views, Stmt, StmtView};
use crate::number::{equal, is_nan, is_zero, number_equal, number_is_nan, number_is_zero};
use vstd::prelude::*;
use vstd::string::StringExecFns;

verus! {

/// The functions that the host provides to every program.
#[derive(Debug, Clone, Copy, PartialEq, Eq, Structural)]
pub enum NativeFunction {
    /// Prints its arguments on one line, separated by single spaces, and
    /// returns `undefined`.
    ConsoleLog,
}

/// A function of the program: its parameters and body, which it shares
/// with the syntax tree, and the scope in which its literal or declaration
/// was evaluated.
#[derive(Debug, Clone, Copy)]
pub struct JsFunction<'a> {
    pub parameters: &'a Vec<String>,
    pub body: &'a Stmt,
    /// The index of the captured scope in the environment.
    pub closure: usize,
}

/// A value.
#[derive(Debug)]
pub enum Value<'a> {
    /// A number, as the bits of its binary64 encoding.
    Number(u64),
    String(String),
    Boolean(bool),
    Null,
    Function(JsFunction<'a>),
    NativeFunction(NativeFunction),
    /// An object of the host, by its handle.
    Object(usize),
    Undefined,
}

/// What the execution of a statement leaves behind.
#[derive(Debug)]
pub enum ExecutionResult<'a> {
    /// The value of an expression statement.
    Value(Value<'a>),
    /// The value of a `return` that is on its way to the nearest call.
    Return(Value<'a>),
    /// Nothing: the statement was a declaration, or control flow that
    /// executed no expression statement.
    Nothing,
}

/// The mathematical model of a [`JsFunction`].
pub struct FunctionView {
    pub parameters: Seq<Seq<char>>,
    pub body: StmtView,
    pub closure: nat,
}

/// The mathematical model of a [`Value`].
pub enum ValueView {
    Number(u64),
    String(Seq<char>),
    Boolean(bool),
    Null,
    Function(FunctionView),
    NativeFunction(NativeFunction),
    Object(nat),
    Undefined,
}

/// The mathematical model of an [`ExecutionResult`].
pub enum ExecutionResultView {
    Value(ValueView),
    Return(ValueView),
    Nothing,
}

impl<'a> View for JsFunction<'a> {
    type V = FunctionView;

    open spec fn view(&self) -> FunctionView {
        FunctionView {
            parameters: name_views(self.parameters@),
            body: self.body@,
            closure: self.closure as nat,
        }
    }
}

impl<'a> View for Value<'a> {
    type V = ValueView;

    open spec fn view(&self) -> ValueView {
        match self {
            Value::Number(bits) => ValueView::Number(*bits),
            Value::String(text) => ValueView::String(text@),
            Value::Boolean(value) => ValueView::Boolean(*value),
            Value::Null => ValueView::Null,
            Value::Function(function) => ValueView::Function(function@),
            Value::NativeFunction(native) => ValueView::NativeFunction(*native),
            Value::Object(handle) => ValueView::Object(*handle as nat),
            Value::Undefined => ValueView::Undefined,
        }
    }
}

impl<'a> View for ExecutionResult<'a> {
    type V = ExecutionResultView;

    open spec fn view(&self) -> ExecutionResultView {
        match self {
            ExecutionResult::Value(value) => ExecutionResultView::Value(value@),
            ExecutionResult::Return(value) => ExecutionResultView::Return(value@),
            ExecutionResult::Nothing => ExecutionResultView::Nothing,
        }
    }
}

/// The models of a sequence of values, one for one.
pub open spec fn value_views<'a>(values: Seq<Value<'a>>) -> Seq<ValueView> {
    values.map_values(|value: Value<'a>| value@)
}

impl ValueView {
    /// Truthiness: `false`, `null`, `undefined`, zero, not-a-number and the
    /// empty string count as false, every other value as true.
    pub open spec fn is_truthy(self) -> bool {
        match self {
            ValueView::Boolean(value) => value,
            ValueView::Null => false,
            ValueView::Undefined => false,
            ValueView::Number(bits) => !is_zero(bits) && !is_nan(bits),
            ValueView::String(text) => text.len() > 0,
            _ => true,
        }
    }

    /// Equality: two numbers, two strings or two booleans are equal where
    /// they hold the same, `null` equals `null` and `undefined` equals
    /// `undefined`. Values of two kinds are never equal, and neither are
    /// functions or objects.
    pub open spec fn is_equal(self, other: ValueView) -> bool {
        match (self, other) {
            (ValueView::Number(a), ValueView::Number(b)) => equal(a, b),
            (ValueView::String(a), ValueView::String(b)) => a == b,
            (ValueView::Boolean(a), ValueView::Boolean(b)) => a == b,
            (ValueView::Null, ValueView::Null) => true,
            (ValueView::Undefined, ValueView::Undefined) => true,
            _ => false,
        }
    }

    /// The display form of every value but a number: a string as it stands,
    /// the others by name. The display form of a number is its decimal
    /// notation, which the host provides.
    pub open spec fn display(self) -> Option<Seq<char>> {
        match self {
            ValueView::Number(_) => None,
            ValueView::String(text) => Some(text),
            ValueView::Boolean(value) => Some(
                if value {
                    "true"@
                } else {
                    "false"@
                },
            ),
            ValueView::Null => Some("null"@),
            ValueView::Function(_) => Some("[Function]"@),
            ValueView::NativeFunction(_) => Some("[Native Function]"@),
            ValueView::Object(_) => Some("[Object]"@),
            ValueView::Undefined => Some("undefined"@),
        }
    }

    /// The value whose display form is how this value is written in a
    /// message: a string between double quotes, every other value as it
    /// is.
    pub open spec fn quoted(self) -> ValueView {
        match self {
            ValueView::String(text) => ValueView::String(seq!['"'] + text + seq!['"']),
            _ => self,
        }
    }
}

impl ExecutionResultView {
    /// The value that the result carries; `undefined` where it carries
    /// none.
    pub open spec fn value(self) -> ValueView {
        match self {
            ExecutionResultView::Value(value) => value,
            ExecutionResultView::Return(value) => value,
            ExecutionResultView::Nothing => ValueView::Undefined,
        }
    }

    /// The value of a call whose body left this result: what the body
    /// returned, and `undefined` where it did not return.
    pub open spec fn returned(self) -> ValueView {
        match self {
            ExecutionResultView::Return(value) => value,
            _ => ValueView::Undefined,
        }
    }
}

impl<'a> Clone for Value<'a> {
    fn clone(&self) -> (copy: Self)
        ensures
            copy == *self,
    {
        match self {
            Value::Number(bits) => Value::Number(*bits),
            Value::String(text) => Value::String(text.clone()),
            Value::Boolean(value) => Value::Boolean(*value),
            Value::Null => Value::Null,
            Value::Function(function) => Value::Function(*function),
            Value::NativeFunction(native) => Value::NativeFunction(*native),
            Value::Object(handle) => Value::Object(*handle),
            Value::Undefined => Value::Undefined,
        }
    }
}

impl<'a> ExecutionResult<'a> {
    /// The value that the result carries; `undefined` where it carries
    /// none.
    pub fn into_value(self) -> (value: Value<'a>)
        ensures
            value@ == self@.value(),
    {
        match self {
            ExecutionResult::Value(value) => value,
            ExecutionResult::Return(value) => value,
            ExecutionResult::Nothing => Value::Undefined,
        }
    }
}

impl<'a> ExecutionResult<'a> {
    /// The value of a call whose body left this result: what the body
    /// returned, and `undefined` where it did not return.
    pub fn into_returned(self) -> (value: Value<'a>)
        ensures
            value@ == self@.returned(),
    {
        match self {
            ExecutionResult::Return(value) => value,
            _ => Value::Undefined,
        }
    }
}

impl<'a> Value<'a> {
    /// Whether the value counts as true in a condition.
    pub fn is_truthy(&self) -> (truthy: bool)
        ensures
            truthy == self@.is_truthy(),
    {
        match self {
            Value::Boolean(value) => *value,
            Value::Null => false,
            Value::Undefined => false,
            Value::Number(bits) => !number_is_zero(*bits) && !number_is_nan(*bits),
            Value::String(text) => !text.as_str().is_empty(),
            _ => true,
        }
    }

    /// Whether `==` holds of the two values.
    pub fn is_equal(&self, other: &Value<'a>) -> (same: bool)
        ensures
            same == self@.is_equal(other@),
    {
        match self {
            Value::Number(a) => match other {
                Value::Number(b) => number_equal(*a, *b),
                _ => false,
            },
            Value::String(a) => match other {
                Value::String(b) => *a == *b,
                _ => false,
            },
            Value::Boolean(a) => match other {
                Value::Boolean(b) => *a == *b,
                _ => false,
            },
            Value::Null => match other {
                Value::Null => true,
                _ => false,
            },
            Value::Undefined => match other {
                Value::Undefined => true,
                _ => false,
            },
            _ => false,
        }
    }

    /// The display form of the value, unless it is a number.
    pub fn display(&self) -> (text: Option<String>)
        ensures
            match text {
                Some(text) => self@.display() == Some(text@),
                None => self@.display() is None,
            },
    {
        match self {
            Value::Number(_) => None,
            Value::String(text) => Some(text.clone()),
            Value::Boolean(value) => Some(
                if *value {
                    String::from_str("true")
                } else {
                    String::from_str("false")
                },
            ),
            Value::Null => Some(String::from_str("null")),
            Value::Function(_) => Some(String::from_str("[Function]")),
            Value::NativeFunction(_) => Some(String::from_str("[Native Function]")),
            Value::Object(_) => Some(String::from_str("[Object]")),
            Value::Undefined => Some(String::from_str("undefined")),
        }
    }

    /// The value as it is written in a message: a string between double
    /// quotes, every other value as it is.
    pub fn quoted(&self) -> (written: Value<'a>)
        ensures
            written@ == self@.quoted(),
    {
        match self {
            Value::String(text) => {
                let mut written = String::new();
                written.push('"');
                written.append(text.as_str());
                written.push('"');
                assert(written@ =~= seq!['"'] + text@ + seq!['"']);
                Value::String(written)
            },
            _ => self.clone(),
        }
    }
}

} // verus!
