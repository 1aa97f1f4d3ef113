//! From source text to tokens.

use js_engine::error::JsEngineError;
use js_engine::lexer::{Lexer, Token, TokenType};

fn tokens(source: &str) -> Vec<Token> {
    Lexer::new(source).scan_tokens().expect("the source lexes")
}

fn kinds(source: &str) -> Vec<TokenType> {
    tokens(source).into_iter().map(|token| token.token_type).collect()
}

fn identifier(name: &str) -> TokenType {
    TokenType::Identifier(name.to_string())
}

fn number(digits: &str) -> TokenType {
    TokenType::Number(digits.to_string())
}

#[test]
fn empty_source_is_one_sentinel() {
    let all = tokens("");
    assert_eq!(all.len(), 1);
    assert_eq!(all[0].token_type, TokenType::EOF);
    assert_eq!(all[0].lexeme, "");
    assert_eq!((all[0].line, all[0].column), (1, 1));
}

#[test]
fn punctuation_and_operators() {
    assert_eq!(
        kinds("(){},.-+;/*"),
        vec![
            TokenType::LeftParen,
            TokenType::RightParen,
            TokenType::LeftBrace,
            TokenType::RightBrace,
            TokenType::Comma,
            TokenType::Dot,
            TokenType::Minus,
            TokenType::Plus,
            TokenType::Semicolon,
            TokenType::Slash,
            TokenType::Star,
            TokenType::EOF,
        ]
    );
}

#[test]
fn one_and_two_character_operators() {
    assert_eq!(
        kinds("! != = == < <= > >="),
        vec![
            TokenType::Bang,
            TokenType::BangEqual,
            TokenType::Equal,
            TokenType::EqualEqual,
            TokenType::Less,
            TokenType::LessEqual,
            TokenType::Greater,
            TokenType::GreaterEqual,
            TokenType::EOF,
        ]
    );
    assert_eq!(
        kinds("!==="),
        vec![TokenType::BangEqual, TokenType::EqualEqual, TokenType::EOF]
    );
    assert_eq!(kinds("<"), vec![TokenType::Less, TokenType::EOF]);
}

#[test]
fn reserved_words_and_identifiers() {
    assert_eq!(
        kinds("and else false function if null or return true var while let const"),
        vec![
            TokenType::And,
            TokenType::Else,
            TokenType::False,
            TokenType::Function,
            TokenType::If,
            TokenType::Null,
            TokenType::Or,
            TokenType::Return,
            TokenType::True,
            TokenType::Var,
            TokenType::While,
            TokenType::Let,
            TokenType::Const,
            TokenType::EOF,
        ]
    );
    assert_eq!(
        kinds("iff _x x1 andy Var é"),
        vec![
            identifier("iff"),
            identifier("_x"),
            identifier("x1"),
            identifier("andy"),
            identifier("Var"),
            identifier("é"),
            TokenType::EOF,
        ]
    );
}

#[test]
fn numbers_take_at_most_one_point() {
    assert_eq!(kinds("12"), vec![number("12"), TokenType::EOF]);
    assert_eq!(kinds("1.5"), vec![number("1.5"), TokenType::EOF]);
    assert_eq!(kinds("1."), vec![number("1."), TokenType::EOF]);
    assert_eq!(
        kinds("1.2.3"),
        vec![number("1.2"), TokenType::Dot, number("3"), TokenType::EOF]
    );
    assert_eq!(
        kinds("1..2"),
        vec![number("1."), TokenType::Dot, number("2"), TokenType::EOF]
    );
    assert_eq!(kinds(".5"), vec![TokenType::Dot, number("5"), TokenType::EOF]);
    assert_eq!(kinds("1x"), vec![number("1"), identifier("x"), TokenType::EOF]);
}

#[test]
fn string_carries_what_stands_between_its_quotes() {
    let all = tokens("\"a b\" \"\"");
    assert_eq!(all[0].token_type, TokenType::String("a b".to_string()));
    assert_eq!(all[0].lexeme, "\"a b\"");
    assert_eq!(all[1].token_type, TokenType::String("".to_string()));
    assert_eq!(all[1].lexeme, "\"\"");
    assert_eq!(all[2].token_type, TokenType::EOF);
}

#[test]
fn comments_run_to_the_end_of_the_line() {
    assert_eq!(
        kinds("1 // two 3\n4 / 5 // six"),
        vec![number("1"), number("4"), TokenType::Slash, number("5"), TokenType::EOF]
    );
    assert_eq!(kinds("\"// no comment\""), vec![TokenType::String("// no comment".to_string()), TokenType::EOF]);
}

#[test]
fn tokens_know_where_they_start() {
    let all = tokens("var x = 10;\n  x == \"a\nb\" ;");
    let places: Vec<(usize, usize)> = all.iter().map(|token| (token.line, token.column)).collect();
    assert_eq!(
        places,
        vec![(1, 1), (1, 5), (1, 7), (1, 9), (1, 11), (2, 3), (2, 5), (2, 8), (3, 4), (3, 5)]
    );
    let lexemes: Vec<&str> = all.iter().map(|token| token.lexeme.as_str()).collect();
    assert_eq!(lexemes, vec!["var", "x", "=", "10", ";", "x", "==", "\"a\nb\"", ";", ""]);
}

#[test]
fn lexemes_reproduce_the_source_without_whitespace_and_comments() {
    let source = "function add(a, b) { // sum\n  return a + b; }\nadd(1.5, \"x y\") <= 3;";
    let text: String = tokens(source).iter().map(|token| token.lexeme.as_str()).collect();
    assert_eq!(text, "functionadd(a,b){returna+b;}add(1.5,\"x y\")<=3;");
}

#[test]
fn unexpected_character_is_an_error_at_the_offset_after_it() {
    match Lexer::new("ab @").scan_tokens() {
        Err(JsEngineError::LexerError { position, message }) => {
            assert_eq!(position, 4);
            assert_eq!(message, "Unexpected character: @");
        }
        other => panic!("expected a lexer error, got {:?}", other),
    }
}

#[test]
fn positions_of_errors_count_bytes() {
    match Lexer::new("é#").scan_tokens() {
        Err(JsEngineError::LexerError { position, message }) => {
            assert_eq!(position, 3);
            assert_eq!(message, "Unexpected character: #");
        }
        other => panic!("expected a lexer error, got {:?}", other),
    }
    match Lexer::new("x = \"日本").scan_tokens() {
        Err(JsEngineError::LexerError { position, message }) => {
            assert_eq!(position, 11);
            assert_eq!(message, "Unterminated string.");
        }
        other => panic!("expected a lexer error, got {:?}", other),
    }
}

#[test]
fn letters_beyond_ascii_are_told_from_other_characters() {
    assert_eq!(kinds("日本 = ñ"), vec![identifier("日本"), TokenType::Equal, identifier("ñ"), TokenType::EOF]);
    match Lexer::new("x€").scan_tokens() {
        Err(JsEngineError::LexerError { position, message }) => {
            assert_eq!(position, 4);
            assert_eq!(message, "Unexpected character: €");
        }
        other => panic!("expected a lexer error, got {:?}", other),
    }
    assert!(Lexer::new("a\u{a0}b").scan_tokens().is_err());
}

#[test]
fn scanning_twice_gives_the_same_tokens() {
    let mut lexer = Lexer::new("a + 1");
    let first = lexer.scan_tokens().unwrap();
    let second = lexer.scan_tokens().unwrap();
    assert_eq!(first.len(), 4);
    assert_eq!(second.len(), 4);
    for (a, b) in first.iter().zip(second.iter()) {
        assert_eq!(a.token_type, b.token_type);
        assert_eq!((a.line, a.column), (b.line, b.column));
    }
}

#[test]
fn error_renders_on_one_line() {
    let lexer = JsEngineError::LexerError { position: 12, message: "Unterminated string.".to_string() };
    assert_eq!(lexer.to_string(), "Lexer error at position 12: Unterminated string.");
    let parser = JsEngineError::ParserError { line: 3, column: 40, message: "Expected expression.".to_string() };
    assert_eq!(parser.to_string(), "Parser error at line 3, column 40: Expected expression.");
    let zero = JsEngineError::ParserError { line: 0, column: 1005, message: "m".to_string() };
    assert_eq!(zero.to_string(), "Parser error at line 0, column 1005: m");
    assert_eq!(
        JsEngineError::RuntimeError { message: "r".to_string() }.to_string(),
        "Runtime error: r"
    );
    assert_eq!(JsEngineError::TypeError { message: "t".to_string() }.to_string(), "Type error: t");
    assert_eq!(
        JsEngineError::ReferenceError { message: "'x' is not defined".to_string() }.to_string(),
        "Reference error: 'x' is not defined"
    );
    assert_eq!(
        JsEngineError::SyntaxError { message: "s".to_string() }.to_string(),
        "Syntax error: s"
    );
    assert_eq!(parser.message(), "Expected expression.");
}
