//! From source text to a program in one call, and the small helpers.

use js_engine::error::JsEngineError;
use js_engine::interpreter::{ArithmeticOp, Request};
use js_engine::program::parse_source;
use js_engine::text::{append_chars, append_decimal};

#[test]
fn source_is_lexed_and_parsed() {
    let statements = parse_source("var a = 1; a + 2;").unwrap();
    assert_eq!(
        format!("{:?}", statements),
        "[Declaration(\"a\", Some(Number(\"1\"))), \
         Expression(Binary(Variable(\"a\"), Add, Number(\"2\")))]"
    );
    assert_eq!(parse_source("").unwrap().len(), 0);
}

#[test]
fn errors_of_the_lexer_come_before_those_of_the_parser() {
    assert_eq!(
        parse_source("var ; \"open").unwrap_err(),
        JsEngineError::LexerError { position: 11, message: "Unterminated string.".to_string() }
    );
    assert_eq!(
        parse_source("var ; x").unwrap_err(),
        JsEngineError::ParserError {
            line: 1,
            column: 5,
            message: "Expected variable name.".to_string()
        }
    );
}

#[test]
fn errors_can_be_cloned() {
    let errors = vec![
        JsEngineError::LexerError { position: 1, message: "l".to_string() },
        JsEngineError::ParserError { line: 2, column: 3, message: "p".to_string() },
        JsEngineError::RuntimeError { message: "r".to_string() },
        JsEngineError::TypeError { message: "t".to_string() },
        JsEngineError::ReferenceError { message: "f".to_string() },
        JsEngineError::SyntaxError { message: "s".to_string() },
    ];
    for e in &errors {
        assert_eq!(&e.clone(), e);
    }
}

#[test]
fn requests_can_be_cloned() {
    let requests = vec![
        Request::Arithmetic(ArithmeticOp::Multiply, 1, 2),
        Request::Parse("1.5".to_string()),
        Request::Display(3),
        Request::Print("line".to_string()),
    ];
    for request in &requests {
        assert_eq!(format!("{:?}", request.clone()), format!("{:?}", request));
    }
}

#[test]
fn decimal_notation_of_integers() {
    let render = |n: usize| {
        let mut text = String::from("n=");
        append_decimal(&mut text, n);
        text
    };
    assert_eq!(render(0), "n=0");
    assert_eq!(render(7), "n=7");
    assert_eq!(render(10), "n=10");
    assert_eq!(render(1234567890), "n=1234567890");
    assert_eq!(render(usize::MAX), format!("n={}", usize::MAX));
}

#[test]
fn characters_are_appended_in_order() {
    let chars: Vec<char> = "héllo".chars().collect();
    let mut text = String::from(">");
    append_chars(&mut text, &chars, 1, 4);
    assert_eq!(text, ">éll");
    append_chars(&mut text, &chars, 2, 2);
    assert_eq!(text, ">éll");
    append_chars(&mut text, &chars, 0, 5);
    assert_eq!(text, ">éllhéllo");
}
