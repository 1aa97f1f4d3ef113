//! A tree-walking interpreter for a small, dynamically typed scripting
//! language in the style of JavaScript.
//!
//! Source text passes through three stages. The [`lexer`] turns characters
//! into tokens, the [`parser`] turns tokens into statements, and the
//! [`interpreter`] evaluates statements over a chain of lexical scopes.
//! Each stage is specified by a mathematical model and proved to compute
//! it: the lexer by the lexical grammar in [`lexical`], the parser by the
//! grammar in [`grammar`], the interpreter by the abstract machine in
//! [`semantics`]. What a program evaluates to is defined by recursion over
//! its syntax tree in [`evaluation`], and the machine is proved in
//! [`adequacy`] to arrive at it. What else holds of every parse and of every
//! run is proved in [`parsing`] and [`theorems`].
//!
//! The interpreter does not compute with floating point and does no
//! output. It asks its host for both, one request at a time, and is
//! otherwise a function of its state.

pub mod adequacy;
pub mod ast;
pub mod environment;
pub mod error;
pub mod evaluation;
pub mod grammar;
pub mod interpreter;
pub mod lexer;
pub mod lexical;
pub mod number;
pub mod parser;
pub mod parsing;
pub mod program;
pub mod semantics;
pub mod text;
pub mod theorems;
pub mod value;
