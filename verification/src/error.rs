//! The closed set of errors that lexing, parsing and evaluation can raise.

use crate::text::{append_decimal, decimal_digits};
use vstd::prelude::*;
use vstd::string::StringExecFns;

verus! {

/// An error raised by one of the stages of the engine.
#[derive(Debug, PartialEq, Eq)]
pub enum JsEngineError {
    /// The lexer met something it cannot turn into a token. `position` is the
    /// byte offset just past the last character consumed.
    LexerError { position: usize, message: String },
    /// The parser met an unexpected token at the given line and column.
    ParserError { line: usize, column: usize, message: String },
    /// Reserved for failures of the running program.
    RuntimeError { message: String },
    /// An operator or a call was applied to a value of the wrong kind.
    TypeError { message: String },
    /// A name was read or written that no scope binds.
    ReferenceError { message: String },
    /// Reserved for syntax errors found after parsing.
    SyntaxError { message: String },
}

/// The mathematical model of a [`JsEngineError`].
pub enum ErrorView {
    LexerError { position: nat, message: Seq<char> },
    ParserError { line: nat, column: nat, message: Seq<char> },
    RuntimeError { message: Seq<char> },
    TypeError { message: Seq<char> },
    ReferenceError { message: Seq<char> },
    SyntaxError { message: Seq<char> },
}

impl ErrorView {
    /// The message carried by the error, whatever its kind.
    pub open spec fn message(self) -> Seq<char> {
        match self {
            ErrorView::LexerError { message, .. } => message,
            ErrorView::ParserError { message, .. } => message,
            ErrorView::RuntimeError { message } => message,
            ErrorView::TypeError { message } => message,
            ErrorView::ReferenceError { message } => message,
            ErrorView::SyntaxError { message } => message,
        }
    }

    /// The one-line rendering of the error: its kind, its location where it
    /// has one, and its message.
    pub open spec fn rendering(self) -> Seq<char> {
        match self {
            ErrorView::LexerError { position, message } => "Lexer error at position "@
                + decimal_digits(position) + ": "@ + message,
            ErrorView::ParserError { line, column, message } => "Parser error at line "@
                + decimal_digits(line) + ", column "@ + decimal_digits(column) + ": "@ + message,
            ErrorView::RuntimeError { message } => "Runtime error: "@ + message,
            ErrorView::TypeError { message } => "Type error: "@ + message,
            ErrorView::ReferenceError { message } => "Reference error: "@ + message,
            ErrorView::SyntaxError { message } => "Syntax error: "@ + message,
        }
    }
}

impl View for JsEngineError {
    type V = ErrorView;

    open spec fn view(&self) -> ErrorView {
        match self {
            JsEngineError::LexerError { position, message } => ErrorView::LexerError {
                position: *position as nat,
                message: message@,
            },
            JsEngineError::ParserError { line, column, message } => ErrorView::ParserError {
                line: *line as nat,
                column: *column as nat,
                message: message@,
            },
            JsEngineError::RuntimeError { message } => ErrorView::RuntimeError {
                message: message@,
            },
            JsEngineError::TypeError { message } => ErrorView::TypeError { message: message@ },
            JsEngineError::ReferenceError { message } => ErrorView::ReferenceError {
                message: message@,
            },
            JsEngineError::SyntaxError { message } => ErrorView::SyntaxError {
                message: message@,
            },
        }
    }
}

impl Clone for JsEngineError {
    fn clone(&self) -> (copy: Self)
        ensures
            copy == *self,
    {
        match self {
            JsEngineError::LexerError { position, message } => JsEngineError::LexerError {
                position: *position,
                message: message.clone(),
            },
            JsEngineError::ParserError { line, column, message } => JsEngineError::ParserError {
                line: *line,
                column: *column,
                message: message.clone(),
            },
            JsEngineError::RuntimeError { message } => JsEngineError::RuntimeError {
                message: message.clone(),
            },
            JsEngineError::TypeError { message } => JsEngineError::TypeError {
                message: message.clone(),
            },
            JsEngineError::ReferenceError { message } => JsEngineError::ReferenceError {
                message: message.clone(),
            },
            JsEngineError::SyntaxError { message } => JsEngineError::SyntaxError {
                message: message.clone(),
            },
        }
    }
}

impl JsEngineError {
    /// The message carried by the error.
    pub fn message(&self) -> (text: &String)
        ensures
            text@ == self@.message(),
    {
        match self {
            JsEngineError::LexerError { message, .. } => message,
            JsEngineError::ParserError { message, .. } => message,
            JsEngineError::RuntimeError { message } => message,
            JsEngineError::TypeError { message } => message,
            JsEngineError::ReferenceError { message } => message,
            JsEngineError::SyntaxError { message } => message,
        }
    }

    /// Renders the error on one line, as it is shown to a user.
    pub fn to_string(&self) -> (text: String)
        ensures
            text@ == self@.rendering(),
    {
        match self {
            JsEngineError::LexerError { position, message } => {
                let mut text = String::from_str("Lexer error at position ");
                append_decimal(&mut text, *position);
                text.append(": ");
                text.append(message.as_str());
                text
            },
            JsEngineError::ParserError { line, column, message } => {
                let mut text = String::from_str("Parser error at line ");
                append_decimal(&mut text, *line);
                text.append(", column ");
                append_decimal(&mut text, *column);
                text.append(": ");
                text.append(message.as_str());
                text
            },
            JsEngineError::RuntimeError { message } => {
                let mut text = String::from_str("Runtime error: ");
                text.append(message.as_str());
                text
            },
            JsEngineError::TypeError { message } => {
                let mut text = String::from_str("Type error: ");
                text.append(message.as_str());
                text
            },
            JsEngineError::ReferenceError { message } => {
                let mut text = String::from_str("Reference error: ");
                text.append(message.as_str());
                text
            },
            JsEngineError::SyntaxError { message } => {
                let mut text = String::from_str("Syntax error: ");
                text.append(message.as_str());
                text
            },
        }
    }
}

} // verus!
