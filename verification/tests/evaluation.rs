//! Whole programs, from source text to the value they leave.

use js_engine::error::JsEngineError;
use js_engine::interpreter::{Action, ArithmeticOp, Interpreter, Reply, Request, Value};
use js_engine::lexer::Lexer;
use js_engine::parser::{Expr, Parser, Stmt};

/// What a program left behind, without the borrows that a `Value` holds.
#[derive(Debug, PartialEq)]
enum Outcome {
    Number(f64),
    Text(String),
    Boolean(bool),
    Null,
    Undefined,
    Function,
    Native,
    Object,
}

fn outcome(value: &Value) -> Outcome {
    match value {
        Value::Number(bits) => Outcome::Number(f64::from_bits(*bits)),
        Value::String(text) => Outcome::Text(text.clone()),
        Value::Boolean(value) => Outcome::Boolean(*value),
        Value::Null => Outcome::Null,
        Value::Undefined => Outcome::Undefined,
        Value::Function(_) => Outcome::Function,
        Value::NativeFunction(_) => Outcome::Native,
        Value::Object(_) => Outcome::Object,
    }
}

/// Does what the machine asks, with the floating point of the machine that
/// runs the test; prints go to `printed`.
fn answer(request: Request, printed: &mut Vec<String>) -> Reply {
    match request {
        Request::Arithmetic(op, a, b) => {
            let (x, y) = (f64::from_bits(a), f64::from_bits(b));
            let result = match op {
                ArithmeticOp::Add => x + y,
                ArithmeticOp::Subtract => x - y,
                ArithmeticOp::Multiply => x * y,
                ArithmeticOp::Divide => x / y,
            };
            Reply::Number(result.to_bits())
        }
        Request::Parse(digits) => match digits.parse::<f64>() {
            Ok(number) => Reply::Number(number.to_bits()),
            Err(_) => Reply::Failure(JsEngineError::LexerError {
                position: 0,
                message: format!("Could not parse number: {}", digits),
            }),
        },
        Request::Display(bits) => Reply::Text(format!("{}", f64::from_bits(bits))),
        Request::Print(line) => {
            printed.push(line);
            Reply::Done
        }
    }
}

/// Runs the statements to their end and counts the steps.
fn drive(statements: &Vec<Stmt>, printed: &mut Vec<String>) -> (Result<Outcome, JsEngineError>, usize) {
    let mut interpreter = Interpreter::new();
    interpreter.interpret(statements);
    let mut steps = 0;
    loop {
        steps += 1;
        assert!(steps < 1_000_000, "the program does not end");
        match interpreter.step() {
            Action::Continue => {}
            Action::Request(request) => interpreter.resume(answer(request, printed)),
            Action::Finished(value) => return (Ok(outcome(&value)), steps),
            Action::Failed(e) => return (Err(e), steps),
        }
    }
}

fn parse(source: &str) -> Result<Vec<Stmt>, JsEngineError> {
    let tokens = Lexer::new(source).scan_tokens()?;
    Parser::new(tokens).parse()
}

fn run(source: &str) -> Result<Outcome, JsEngineError> {
    let statements = parse(source)?;
    let mut printed = Vec::new();
    drive(&statements, &mut printed).0
}

fn number(source: &str) -> f64 {
    match run(source) {
        Ok(Outcome::Number(n)) => n,
        other => panic!("expected a number, got {:?}", other),
    }
}

#[test]
fn declaration_and_precedence_yield_seven() {
    assert_eq!(run("var x = 1 + 2 * 3; x;"), Ok(Outcome::Number(7.0)));
}

#[test]
fn function_call_yields_five() {
    assert_eq!(number("function add(a, b) { return a + b; } add(2, 3);"), 5.0);
}

#[test]
fn counter_closure_counts_to_three() {
    let source = "function makeCounter() { var c = 0; return function() { c = c + 1; return c; }; } \
                  var n = makeCounter(); n(); n(); n();";
    assert_eq!(number(source), 3.0);
}

#[test]
fn two_counters_do_not_share_their_count() {
    let source = "function makeCounter() { var c = 0; return function() { c = c + 1; return c; }; } \
                  var a = makeCounter(); var b = makeCounter(); a(); a(); b();";
    assert_eq!(number(source), 1.0);
}

#[test]
fn string_concatenation_is_left_associative() {
    assert_eq!(run("\"hi \" + 1 + 2;").unwrap(), Outcome::Text("hi 12".to_string()));
    assert_eq!(run("1 + 2 + \"hi\";").unwrap(), Outcome::Text("3hi".to_string()));
}

#[test]
fn concatenation_uses_display_forms() {
    assert_eq!(run("\"\" + true;").unwrap(), Outcome::Text("true".to_string()));
    assert_eq!(run("\"\" + false;").unwrap(), Outcome::Text("false".to_string()));
    assert_eq!(run("null + \"\";").unwrap(), Outcome::Text("null".to_string()));
    assert_eq!(run("var u; \"u=\" + u;").unwrap(), Outcome::Text("u=undefined".to_string()));
    assert_eq!(run("\"f=\" + function() {};").unwrap(), Outcome::Text("f=[Function]".to_string()));
    assert_eq!(run("\"a\" + \"b\";").unwrap(), Outcome::Text("ab".to_string()));
    assert_eq!(run("\"n=\" + 7.0;").unwrap(), Outcome::Text("n=7".to_string()));
    assert_eq!(run("\"n=\" + 0.5;").unwrap(), Outcome::Text("n=0.5".to_string()));
    assert_eq!(run("\"n=\" + 1 / 0;").unwrap(), Outcome::Text("n=inf".to_string()));
}

#[test]
fn truthiness_of_conditions() {
    assert_eq!(number("if (0) { 1; } else { 2; }"), 2.0);
    assert_eq!(number("if (\"\") { 1; } else { 2; }"), 2.0);
    assert_eq!(number("if (\"x\") { 1; } else { 2; }"), 1.0);
    assert_eq!(number("if (null) { 1; } else { 2; }"), 2.0);
    assert_eq!(number("var u; if (u) { 1; } else { 2; }"), 2.0);
    assert_eq!(number("if (false) { 1; } else { 2; }"), 2.0);
    assert_eq!(number("if (0 / 0) { 1; } else { 2; }"), 1.0);
    assert_eq!(number("if (1 - 1) { 1; } else { 2; }"), 2.0);
    assert_eq!(number("if (function() {}) { 1; } else { 2; }"), 1.0);
}

#[test]
fn not_a_number_is_falsy() {
    // 0 / 0 is positive infinity here; infinity minus infinity is no number.
    assert_eq!(number("var inf = 1 / 0; if (inf - inf) { 1; } else { 2; }"), 2.0);
}

#[test]
fn while_loop_evaluates_its_condition_every_time() {
    assert_eq!(number("var i = 0; while (i < 3) { i = i + 1; } i;"), 3.0);
}

#[test]
fn while_loop_that_never_runs_leaves_nothing() {
    assert_eq!(run("while (false) { 1; }").unwrap(), Outcome::Undefined);
    assert_eq!(number("5; while (false) { 1; }"), 5.0);
}

#[test]
fn while_loop_leaves_what_its_body_left_last() {
    assert_eq!(number("var i = 0; while (i < 3) i = i + 1;"), 3.0);
}

#[test]
fn return_leaves_a_loop_and_its_function() {
    let source = "function first() { var i = 0; while (true) { i = i + 1; if (i == 4) { return i; } } } first();";
    assert_eq!(number(source), 4.0);
}

#[test]
fn unbound_name_is_a_reference_error() {
    match run("x;") {
        Err(JsEngineError::ReferenceError { message }) => assert_eq!(message, "'x' is not defined"),
        other => panic!("expected a reference error, got {:?}", other),
    }
}

#[test]
fn assignment_to_unbound_name_is_a_reference_error() {
    match run("y = 1;") {
        Err(JsEngineError::ReferenceError { message }) => assert_eq!(message, "'y' is not defined"),
        other => panic!("expected a reference error, got {:?}", other),
    }
}

#[test]
fn string_minus_number_is_a_type_error() {
    match run("\"a\" - 1;") {
        Err(JsEngineError::TypeError { message }) => {
            assert_eq!(message, "Cannot subtract 1 from \"a\"")
        }
        other => panic!("expected a type error, got {:?}", other),
    }
}

#[test]
fn type_errors_name_the_operands() {
    let message = |source: &str| match run(source) {
        Err(JsEngineError::TypeError { message }) => message,
        other => panic!("expected a type error, got {:?}", other),
    };
    assert_eq!(message("true + 1;"), "Cannot add true and 1");
    assert_eq!(message("null * 2;"), "Cannot multiply null and 2");
    assert_eq!(message("1 / \"x\";"), "Cannot divide 1 by \"x\"");
    assert_eq!(message("-\"x\";"), "Cannot negate \"x\"");
    assert_eq!(message("1 < \"x\";"), "Cannot compare 1 < \"x\"");
    assert_eq!(message("true <= 1;"), "Cannot compare true <= 1");
    assert_eq!(message("null > 1.5;"), "Cannot compare null > 1.5");
    assert_eq!(message("var u; u >= u;"), "Cannot compare undefined >= undefined");
}

#[test]
fn calling_a_number_is_a_type_error() {
    match run("1();") {
        Err(JsEngineError::TypeError { message }) => assert_eq!(message, "1 is not a function"),
        other => panic!("expected a type error, got {:?}", other),
    }
    match run("\"f\"();") {
        Err(JsEngineError::TypeError { message }) => {
            assert_eq!(message, "\"f\" is not a function")
        }
        other => panic!("expected a type error, got {:?}", other),
    }
}

#[test]
fn unterminated_string_is_a_lexer_error() {
    match run("\"abc") {
        Err(JsEngineError::LexerError { position, message }) => {
            assert_eq!(position, 4);
            assert_eq!(message, "Unterminated string.");
        }
        other => panic!("expected a lexer error, got {:?}", other),
    }
}

#[test]
fn missing_variable_name_is_a_parser_error() {
    match run("var ;") {
        Err(JsEngineError::ParserError { line, column, message }) => {
            assert_eq!(message, "Expected variable name.");
            assert_eq!((line, column), (1, 5));
        }
        other => panic!("expected a parser error, got {:?}", other),
    }
}

#[test]
fn subtraction_is_left_associative() {
    assert_eq!(number("10 - 3 - 2;"), 5.0);
    assert_eq!(number("100 / 10 / 5;"), 2.0);
}

#[test]
fn multiplication_binds_tighter_than_addition() {
    assert_eq!(number("1 + 2 * 3;"), 7.0);
    assert_eq!(number("2 * 3 + 1;"), 7.0);
    assert_eq!(number("-2 * 3;"), -6.0);
    assert_eq!(number("(1 + 2) * 3;"), 9.0);
}

#[test]
fn or_does_not_evaluate_its_right_operand_after_a_truthy_left() {
    let source = "var called = 0; function f() { return 1; } \
                  function g() { called = called + 1; return 2; } \
                  var r = f() or g(); r * 10 + called;";
    assert_eq!(number(source), 10.0);
}

#[test]
fn or_evaluates_its_right_operand_after_a_falsy_left() {
    let source = "var called = 0; function f() { return 0; } \
                  function g() { called = called + 1; return 2; } \
                  var r = f() or g(); r * 10 + called;";
    assert_eq!(number(source), 21.0);
}

#[test]
fn and_does_not_evaluate_its_right_operand_after_a_falsy_left() {
    let source = "var called = 0; function f() { return 0; } \
                  function g() { called = called + 1; return 2; } \
                  var r = f() and g(); r * 10 + called;";
    assert_eq!(number(source), 0.0);
}

#[test]
fn and_yields_its_right_operand_after_a_truthy_left() {
    assert_eq!(run("1 and \"x\";").unwrap(), Outcome::Text("x".to_string()));
    assert_eq!(run("null or \"x\";").unwrap(), Outcome::Text("x".to_string()));
    assert_eq!(run("null and 1;").unwrap(), Outcome::Null);
    assert_eq!(run("2 or 1;").unwrap(), Outcome::Number(2.0));
}

#[test]
fn closure_sees_the_bindings_of_a_block_that_has_ended() {
    let source = "var f; { var x = 42; f = function() { return x; }; } f();";
    assert_eq!(number(source), 42.0);
}

#[test]
fn closure_sees_later_writes_to_what_it_captured() {
    let source = "var x = 1; function get() { return x; } x = 2; get();";
    assert_eq!(number(source), 2.0);
}

#[test]
fn function_runs_in_the_scope_of_its_definition_not_of_its_caller() {
    let source = "var x = 1; function get() { return x; } \
                  function call() { var x = 2; return get(); } call();";
    assert_eq!(number(source), 1.0);
}

#[test]
fn functions_can_call_themselves() {
    let source = "function fact(n) { if (n <= 1) { return 1; } return n * fact(n - 1); } fact(10);";
    assert_eq!(number(source), 3628800.0);
}

#[test]
fn division_by_zero_is_positive_infinity() {
    assert_eq!(number("1 / 0;"), f64::INFINITY);
    assert_eq!(number("-1 / 0;"), f64::INFINITY);
    assert_eq!(number("0 / 0;"), f64::INFINITY);
    assert_eq!(number("1 / -0;"), f64::INFINITY);
    assert_eq!(number("1 / 4;"), 0.25);
}

#[test]
fn evaluation_is_deterministic() {
    let source = "var s = 0; var i = 0; while (i < 10) { s = s + i * 0.1; i = i + 1; } s;";
    let statements = parse(source).unwrap();
    let (mut first_printed, mut second_printed) = (Vec::new(), Vec::new());
    let first = drive(&statements, &mut first_printed);
    let second = drive(&statements, &mut second_printed);
    assert_eq!(first, second);
    assert_eq!(first_printed, second_printed);
    let expected = (0..10).fold(0.0, |sum, i| sum + i as f64 * 0.1);
    assert_eq!(first.0, Ok(Outcome::Number(expected)));
}

#[test]
fn missing_arguments_are_undefined_and_extra_ones_are_dropped() {
    assert_eq!(run("function second(a, b) { return b; } second(1);").unwrap(), Outcome::Undefined);
    assert_eq!(number("function first(a) { return a; } first(1, 2, 3);"), 1.0);
}

#[test]
fn function_without_return_yields_undefined() {
    assert_eq!(run("function f() { var x = 1; } f();").unwrap(), Outcome::Undefined);
}

#[test]
fn only_a_return_gives_a_call_its_value() {
    assert_eq!(run("function f() { 1; 2; } f();").unwrap(), Outcome::Undefined);
    assert_eq!(run("function f() { if (true) { 3; } } f();").unwrap(), Outcome::Undefined);
    assert_eq!(number("function f() { if (true) { return 3; } 4; } f();"), 3.0);
}

#[test]
fn top_level_return_ends_the_program() {
    assert_eq!(number("1; return 2; 3;"), 2.0);
    assert_eq!(run("return;").unwrap(), Outcome::Undefined);
}

#[test]
fn empty_program_yields_undefined() {
    assert_eq!(run("").unwrap(), Outcome::Undefined);
    assert_eq!(run("// nothing here\n").unwrap(), Outcome::Undefined);
}

#[test]
fn declarations_yield_nothing_and_keep_the_last_value() {
    assert_eq!(number("1; var x = 2;"), 1.0);
    assert_eq!(run("var x;").unwrap(), Outcome::Undefined);
}

#[test]
fn block_scope_ends_with_the_block() {
    match run("{ var inner = 1; } inner;") {
        Err(JsEngineError::ReferenceError { message }) => {
            assert_eq!(message, "'inner' is not defined")
        }
        other => panic!("expected a reference error, got {:?}", other),
    }
    assert_eq!(number("var x = 1; { var x = 2; } x;"), 1.0);
    assert_eq!(number("var x = 1; { x = 2; } x;"), 2.0);
}

#[test]
fn let_and_const_declare_like_var() {
    assert_eq!(number("let a = 1; const b = 2; b = 3; a + b;"), 4.0);
}

#[test]
fn equality_is_strict_between_kinds() {
    assert_eq!(run("null == null;").unwrap(), Outcome::Boolean(true));
    assert_eq!(run("var u; u == null;").unwrap(), Outcome::Boolean(false));
    assert_eq!(run("1 == \"1\";").unwrap(), Outcome::Boolean(false));
    assert_eq!(run("1 != \"1\";").unwrap(), Outcome::Boolean(true));
    assert_eq!(run("\"a\" == \"a\";").unwrap(), Outcome::Boolean(true));
    assert_eq!(run("true == true;").unwrap(), Outcome::Boolean(true));
    assert_eq!(run("0 == -0;").unwrap(), Outcome::Boolean(true));
    assert_eq!(run("1.5 == 1.5;").unwrap(), Outcome::Boolean(true));
    assert_eq!(run("var f = function() {}; f == f;").unwrap(), Outcome::Boolean(false));
    assert_eq!(run("var inf = 1 / 0; (inf - inf) == (inf - inf);").unwrap(), Outcome::Boolean(false));
}

#[test]
fn comparisons_of_numbers() {
    assert_eq!(run("1 < 2;").unwrap(), Outcome::Boolean(true));
    assert_eq!(run("2 < 1;").unwrap(), Outcome::Boolean(false));
    assert_eq!(run("2 <= 2;").unwrap(), Outcome::Boolean(true));
    assert_eq!(run("-1 > -2;").unwrap(), Outcome::Boolean(true));
    assert_eq!(run("-3 >= -2;").unwrap(), Outcome::Boolean(false));
    assert_eq!(run("-1 < 1;").unwrap(), Outcome::Boolean(true));
    assert_eq!(run("0 < -0;").unwrap(), Outcome::Boolean(false));
    assert_eq!(run("0 <= -0;").unwrap(), Outcome::Boolean(true));
}

#[test]
fn unary_operators() {
    assert_eq!(number("-(1 + 2);"), -3.0);
    assert_eq!(number("--4;"), 4.0);
    assert_eq!(run("!0;").unwrap(), Outcome::Boolean(true));
    assert_eq!(run("!\"x\";").unwrap(), Outcome::Boolean(false));
    assert_eq!(run("!!null;").unwrap(), Outcome::Boolean(false));
}

#[test]
fn assignment_yields_the_value_and_is_right_associative() {
    assert_eq!(number("var a; var b; a = b = 3; a + b;"), 6.0);
    assert_eq!(number("var a; a = 4;"), 4.0);
}

#[test]
fn console_log_is_bound_but_cannot_be_written_in_source() {
    assert!(matches!(run("console;"), Err(JsEngineError::ReferenceError { .. })));
    assert!(matches!(run("console.log(1);"), Err(JsEngineError::ParserError { .. })));
}

#[test]
fn console_log_prints_display_forms_separated_by_spaces() {
    let call = |arguments: Vec<Expr>| {
        vec![Stmt::Expression(Expr::Call(
            Box::new(Expr::Variable("console.log".to_string())),
            arguments,
        ))]
    };
    let statements = call(vec![
        Expr::Number("1".to_string()),
        Expr::String("two".to_string()),
        Expr::Boolean(true),
        Expr::Null,
        Expr::Number("2.50".to_string()),
    ]);
    let mut printed = Vec::new();
    let (result, _) = drive(&statements, &mut printed);
    assert_eq!(result, Ok(Outcome::Undefined));
    assert_eq!(printed, vec!["1 two true null 2.5".to_string()]);

    let statements = call(vec![]);
    let mut printed = Vec::new();
    let (result, _) = drive(&statements, &mut printed);
    assert_eq!(result, Ok(Outcome::Undefined));
    assert_eq!(printed, vec!["".to_string()]);
}

#[test]
fn console_log_is_a_native_function() {
    let statements = vec![Stmt::Expression(Expr::Variable("console.log".to_string()))];
    let mut printed = Vec::new();
    assert_eq!(drive(&statements, &mut printed).0, Ok(Outcome::Native));
}

#[test]
fn conditional_expression_picks_a_branch() {
    let pick = |condition: Expr, otherwise: Option<Box<Expr>>| {
        vec![Stmt::Expression(Expr::Conditional(
            Box::new(condition),
            Box::new(Expr::Number("1".to_string())),
            otherwise,
        ))]
    };
    let mut printed = Vec::new();
    let two = Some(Box::new(Expr::Number("2".to_string())));
    assert_eq!(drive(&pick(Expr::Boolean(true), None), &mut printed).0, Ok(Outcome::Number(1.0)));
    assert_eq!(drive(&pick(Expr::Boolean(false), two), &mut printed).0, Ok(Outcome::Number(2.0)));
    assert_eq!(drive(&pick(Expr::Boolean(false), None), &mut printed).0, Ok(Outcome::Undefined));
}

#[test]
fn failure_of_the_host_fails_the_program() {
    let statements = vec![Stmt::Expression(Expr::Number("one".to_string()))];
    let mut printed = Vec::new();
    match drive(&statements, &mut printed).0 {
        Err(JsEngineError::LexerError { message, .. }) => {
            assert_eq!(message, "Could not parse number: one")
        }
        other => panic!("expected a lexer error, got {:?}", other),
    }
}

#[test]
fn reply_that_does_not_answer_the_request_is_not_taken() {
    let statements = parse("1 + 2;").unwrap();
    let mut interpreter = Interpreter::new();
    interpreter.interpret(&statements);
    let mut printed = Vec::new();
    loop {
        match interpreter.step() {
            Action::Continue => {}
            Action::Request(Request::Arithmetic(op, a, b)) => {
                interpreter.resume(Reply::Done);
                interpreter.resume(Reply::Text("3".to_string()));
                assert!(matches!(
                    interpreter.step(),
                    Action::Request(Request::Arithmetic(ArithmeticOp::Add, _, _))
                ));
                interpreter.resume(answer(Request::Arithmetic(op, a, b), &mut printed));
            }
            Action::Request(request) => interpreter.resume(answer(request, &mut printed)),
            Action::Finished(value) => {
                assert_eq!(outcome(&value), Outcome::Number(3.0));
                break;
            }
            Action::Failed(e) => panic!("failed with {:?}", e),
        }
    }
    // A reply that nothing waits for changes nothing either.
    interpreter.resume(Reply::Number(0));
    assert!(matches!(interpreter.step(), Action::Finished(Value::Number(_))));
}

#[test]
fn later_program_sees_what_an_earlier_one_declared() {
    let first = parse("var kept = 41;").unwrap();
    let second = parse("kept + 1;").unwrap();
    let mut interpreter = Interpreter::new();
    let mut printed = Vec::new();
    for statements in [&first, &second] {
        interpreter.interpret(statements);
        loop {
            match interpreter.step() {
                Action::Continue => {}
                Action::Request(request) => interpreter.resume(answer(request, &mut printed)),
                Action::Finished(_) | Action::Failed(_) => break,
            }
        }
    }
    assert!(matches!(interpreter.action(), Action::Finished(Value::Number(bits)) if f64::from_bits(bits) == 42.0));
}
