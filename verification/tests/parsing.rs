//! From tokens to statements.

use js_engine::error::JsEngineError;
use js_engine::lexer::{Lexer, Token, TokenType};
use js_engine::parser::{BinaryOp, Expr, Parser, Stmt, UnaryOp};

fn parse(source: &str) -> Result<Vec<Stmt>, JsEngineError> {
    let tokens = Lexer::new(source).scan_tokens().expect("the source lexes");
    Parser::new(tokens).parse()
}

/// The statements of `source`, written out.
fn tree(source: &str) -> String {
    format!("{:?}", parse(source).expect("the source parses"))
}

fn failure(source: &str) -> (usize, usize, String) {
    match parse(source) {
        Err(JsEngineError::ParserError { line, column, message }) => (line, column, message),
        other => panic!("expected a parser error, got {:?}", other),
    }
}

fn complaint(source: &str) -> String {
    failure(source).2
}

#[test]
fn product_is_taken_before_sum() {
    assert_eq!(
        tree("a + b * c;"),
        "[Expression(Binary(Variable(\"a\"), Add, Binary(Variable(\"b\"), Multiply, Variable(\"c\"))))]"
    );
    assert_eq!(
        tree("a * b + c;"),
        "[Expression(Binary(Binary(Variable(\"a\"), Multiply, Variable(\"b\")), Add, Variable(\"c\")))]"
    );
}

#[test]
fn sign_is_taken_before_product() {
    assert_eq!(
        tree("-a * b;"),
        "[Expression(Binary(Unary(Negate, Variable(\"a\")), Multiply, Variable(\"b\")))]"
    );
    assert_eq!(tree("!!a;"), "[Expression(Unary(Not, Unary(Not, Variable(\"a\"))))]");
}

#[test]
fn binary_operators_group_to_the_left() {
    assert_eq!(
        tree("a - b - c;"),
        "[Expression(Binary(Binary(Variable(\"a\"), Subtract, Variable(\"b\")), Subtract, Variable(\"c\")))]"
    );
    assert_eq!(
        tree("a / b * c;"),
        "[Expression(Binary(Binary(Variable(\"a\"), Divide, Variable(\"b\")), Multiply, Variable(\"c\")))]"
    );
    assert_eq!(
        tree("a == b != c;"),
        "[Expression(Binary(Binary(Variable(\"a\"), Equal, Variable(\"b\")), NotEqual, Variable(\"c\")))]"
    );
    assert_eq!(
        tree("a or b or c;"),
        "[Expression(Binary(Binary(Variable(\"a\"), Or, Variable(\"b\")), Or, Variable(\"c\")))]"
    );
}

#[test]
fn levels_of_binary_operators() {
    assert_eq!(
        tree("a or b and c == d < e + f * g;"),
        "[Expression(Binary(Variable(\"a\"), Or, Binary(Variable(\"b\"), And, \
         Binary(Variable(\"c\"), Equal, Binary(Variable(\"d\"), Less, \
         Binary(Variable(\"e\"), Add, Binary(Variable(\"f\"), Multiply, Variable(\"g\"))))))))]"
    );
    assert_eq!(
        tree("a <= b; a > b; a >= b;"),
        "[Expression(Binary(Variable(\"a\"), LessEqual, Variable(\"b\"))), \
         Expression(Binary(Variable(\"a\"), Greater, Variable(\"b\"))), \
         Expression(Binary(Variable(\"a\"), GreaterEqual, Variable(\"b\")))]"
    );
}

#[test]
fn parentheses_group_and_leave_no_node() {
    assert_eq!(
        tree("(a + b) * c;"),
        "[Expression(Binary(Binary(Variable(\"a\"), Add, Variable(\"b\")), Multiply, Variable(\"c\")))]"
    );
    assert_eq!(tree("((a));"), "[Expression(Variable(\"a\"))]");
}

#[test]
fn assignment_groups_to_the_right() {
    assert_eq!(
        tree("a = b = 1;"),
        "[Expression(Assign(\"a\", Assign(\"b\", Number(\"1\"))))]"
    );
    assert_eq!(
        tree("a = b or c;"),
        "[Expression(Assign(\"a\", Binary(Variable(\"b\"), Or, Variable(\"c\"))))]"
    );
}

#[test]
fn literals() {
    assert_eq!(
        tree("1.50; \"s\"; true; false; null;"),
        "[Expression(Number(\"1.50\")), Expression(String(\"s\")), Expression(Boolean(true)), \
         Expression(Boolean(false)), Expression(Null)]"
    );
}

#[test]
fn declarations() {
    assert_eq!(
        tree("var a; let b = 1; const c = a;"),
        "[Declaration(\"a\", None), Declaration(\"b\", Some(Number(\"1\"))), \
         Declaration(\"c\", Some(Variable(\"a\")))]"
    );
    assert_eq!(
        tree("function f(a, b) { return a; }"),
        "[Function(\"f\", [\"a\", \"b\"], Block([Return(Some(Variable(\"a\")))]))]"
    );
    assert_eq!(tree("function f() {}"), "[Function(\"f\", [], Block([]))]");
}

#[test]
fn statements() {
    assert_eq!(
        tree("if (a) b; else { c; }"),
        "[If(Variable(\"a\"), Expression(Variable(\"b\")), Some(Block([Expression(Variable(\"c\"))])))]"
    );
    assert_eq!(
        tree("if (a) if (b) c; else d;"),
        "[If(Variable(\"a\"), If(Variable(\"b\"), Expression(Variable(\"c\")), \
         Some(Expression(Variable(\"d\")))), None)]"
    );
    assert_eq!(
        tree("while (a) { return; }"),
        "[While(Variable(\"a\"), Block([Return(None)]))]"
    );
    assert_eq!(tree("{ var a; { } }"), "[Block([Declaration(\"a\", None), Block([])])]");
}

#[test]
fn calls_and_function_literals() {
    assert_eq!(
        tree("f(1, g())(a);"),
        "[Expression(Call(Call(Variable(\"f\"), [Number(\"1\"), Call(Variable(\"g\"), [])]), \
         [Variable(\"a\")]))]"
    );
    assert_eq!(
        tree("var f = function(x) { x; };"),
        "[Declaration(\"f\", Some(Function([\"x\"], Block([Expression(Variable(\"x\"))]))))]"
    );
    assert_eq!(tree("-f();"), "[Expression(Unary(Negate, Call(Variable(\"f\"), [])))]");
}

#[test]
fn trees_can_be_taken_apart() {
    let statements = parse("1 + 2;").unwrap();
    assert_eq!(statements.len(), 1);
    match &statements[0] {
        Stmt::Expression(Expr::Binary(left, op, right)) => {
            assert_eq!(*op, BinaryOp::Add);
            assert!(matches!(&**left, Expr::Number(digits) if digits == "1"));
            assert!(matches!(&**right, Expr::Number(digits) if digits == "2"));
        }
        other => panic!("expected a sum, got {:?}", other),
    }
    match &parse("!x;").unwrap()[0] {
        Stmt::Expression(Expr::Unary(op, _)) => assert_eq!(*op, UnaryOp::Not),
        other => panic!("expected a negation, got {:?}", other),
    }
}

#[test]
fn empty_stream_is_an_empty_program() {
    assert_eq!(tree(""), "[]");
    assert_eq!(tree("  // only a comment"), "[]");
}

#[test]
fn missing_names() {
    assert_eq!(failure("var ;"), (1, 5, "Expected variable name.".to_string()));
    assert_eq!(failure("let 1;"), (1, 5, "Expected variable name.".to_string()));
    assert_eq!(failure("var"), (1, 4, "Expected variable name.".to_string()));
    assert_eq!(failure("function (a) {}"), (1, 10, "Expected function name.".to_string()));
    assert_eq!(complaint("function f(1) {}"), "Expected parameter name.");
    assert_eq!(complaint("function f(a,) {}"), "Expected parameter name.");
    assert_eq!(complaint("var f = function(a, ) {};"), "Expected parameter name.");
}

#[test]
fn missing_punctuation() {
    assert_eq!(complaint("var a = 1"), "Expected ';' after variable declaration.");
    assert_eq!(complaint("var a 1;"), "Expected ';' after variable declaration.");
    assert_eq!(complaint("function f {}"), "Expected '(' after function name.");
    assert_eq!(complaint("function f(a {}"), "Expected ')' after parameters.");
    assert_eq!(complaint("function f(a) a;"), "Expected '{' before function body.");
    assert_eq!(complaint("if a) b;"), "Expected '(' after 'if'.");
    assert_eq!(complaint("if (a b;"), "Expected ')' after if condition.");
    assert_eq!(complaint("while a) b;"), "Expected '(' after 'while'.");
    assert_eq!(complaint("while (a b;"), "Expected ')' after while condition.");
    assert_eq!(complaint("return 1"), "Expected ';' after return value.");
    assert_eq!(complaint("{ a;"), "Expected '}' after block.");
    assert_eq!(complaint("a"), "Expected ';' after expression.");
    assert_eq!(complaint("f(a;"), "Expected ')' after arguments.");
    assert_eq!(complaint("(a;"), "Expected ')' after expression.");
    assert_eq!(complaint("var f = function {};"), "Expected '(' after 'function'.");
}

#[test]
fn missing_expressions() {
    assert_eq!(failure("1 +"), (1, 4, "Expected expression.".to_string()));
    assert_eq!(failure(";"), (1, 1, "Expected expression.".to_string()));
    assert_eq!(failure("a = ;"), (1, 5, "Expected expression.".to_string()));
    assert_eq!(failure("return"), (1, 7, "Expected expression.".to_string()));
    assert_eq!(failure("f(,);"), (1, 3, "Expected expression.".to_string()));
    assert_eq!(failure("\n\n  else;"), (3, 3, "Expected expression.".to_string()));
}

#[test]
fn only_a_variable_can_be_assigned_to() {
    assert_eq!(failure("1 = 2;"), (1, 6, "Invalid assignment target.".to_string()));
    assert_eq!(complaint("a + b = c;"), "Invalid assignment target.");
    assert_eq!(complaint("f() = 1;"), "Invalid assignment target.");
    // Parentheses leave no node, so a variable in parentheses is still a variable.
    assert_eq!(tree("(a) = 1;"), "[Expression(Assign(\"a\", Number(\"1\")))]");
}

#[test]
fn dot_is_lexed_but_fits_no_rule() {
    assert_eq!(failure("a.b;"), (1, 2, "Expected ';' after expression.".to_string()));
    assert_eq!(failure(".5;"), (1, 1, "Expected expression.".to_string()));
}

#[test]
fn first_error_ends_parsing() {
    assert_eq!(failure("var ; var ;"), (1, 5, "Expected variable name.".to_string()));
    assert_eq!(failure("a;\nb\nc;"), (3, 1, "Expected ';' after expression.".to_string()));
}

fn names(count: usize) -> String {
    (0..count).map(|i| format!("p{}", i)).collect::<Vec<_>>().join(", ")
}

#[test]
fn function_takes_255_parameters_at_most() {
    let statements = parse(&format!("function f({}) {{}}", names(255))).unwrap();
    match &statements[0] {
        Stmt::Function(_, parameters, _) => assert_eq!(parameters.len(), 255),
        other => panic!("expected a function, got {:?}", other),
    }
    assert_eq!(
        complaint(&format!("function f({}) {{}}", names(256))),
        "Cannot have more than 255 parameters."
    );
    assert_eq!(
        complaint(&format!("var f = function({}) {{}};", names(256))),
        "Cannot have more than 255 parameters."
    );
    assert!(parse(&format!("var f = function({}) {{}};", names(255))).is_ok());
}

#[test]
fn call_takes_255_arguments_at_most() {
    let statements = parse(&format!("f({});", names(255))).unwrap();
    match &statements[0] {
        Stmt::Expression(Expr::Call(_, arguments)) => assert_eq!(arguments.len(), 255),
        other => panic!("expected a call, got {:?}", other),
    }
    let (line, column, message) = failure(&format!("f({});", names(256)));
    assert_eq!(message, "Cannot have more than 255 arguments.");
    // The complaint stands at the argument that is one too many.
    assert_eq!((line, column), (1, 3 + names(255).len() + 2));
}

#[test]
fn parser_goes_on_from_where_it_stands() {
    let tokens = Lexer::new("a; b;").scan_tokens().unwrap();
    let mut parser = Parser::new(tokens);
    assert_eq!(parser.parse().unwrap().len(), 2);
    assert_eq!(parser.parse().unwrap().len(), 0);
}

#[test]
fn payloads_of_tokens_do_not_matter_to_the_rules() {
    // A hand-made stream: the lexeme is not what the parser reads.
    let token = |token_type: TokenType| Token { token_type, lexeme: String::new(), line: 7, column: 9 };
    let tokens = vec![
        token(TokenType::Var),
        token(TokenType::Identifier("x".to_string())),
        token(TokenType::Equal),
        token(TokenType::String("s".to_string())),
        token(TokenType::Semicolon),
        token(TokenType::EOF),
    ];
    let statements = Parser::new(tokens).parse().unwrap();
    assert_eq!(format!("{:?}", statements), "[Declaration(\"x\", Some(String(\"s\")))]");
    let tokens = vec![token(TokenType::Var), token(TokenType::EOF)];
    assert_eq!(
        Parser::new(tokens).parse().unwrap_err(),
        JsEngineError::ParserError { line: 7, column: 9, message: "Expected variable name.".to_string() }
    );
}
