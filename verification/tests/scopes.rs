//! Scopes and values by themselves, and the machine under a budget of
//! steps.

use js_engine::error::JsEngineError;
use js_engine::interpreter::{
    Action, Environment, ExecutionResult, Interpreter, NativeFunction, Reply, Request, Value,
};
use js_engine::lexer::Lexer;
use js_engine::parser::{Parser, Stmt};

fn name(text: &str) -> String {
    text.to_string()
}

fn number(value: f64) -> Value<'static> {
    Value::Number(value.to_bits())
}

fn get(environment: &Environment, text: &str) -> Option<f64> {
    match environment.get(&name(text)) {
        Ok(Value::Number(bits)) => Some(f64::from_bits(bits)),
        Ok(other) => panic!("expected a number, got {:?}", other),
        Err(JsEngineError::ReferenceError { message }) => {
            assert_eq!(message, format!("'{}' is not defined", text));
            None
        }
        Err(other) => panic!("expected a reference error, got {:?}", other),
    }
}

#[test]
fn fresh_environment_binds_nothing() {
    let environment = Environment::new();
    assert!(environment.is_well_formed());
    assert_eq!(environment.current(), 0);
    assert_eq!(get(&environment, "x"), None);
}

#[test]
fn define_writes_to_the_scope_in_force() {
    let mut environment = Environment::new();
    environment.define(name("x"), number(1.0));
    assert_eq!(get(&environment, "x"), Some(1.0));
    environment.define(name("x"), number(2.0));
    assert_eq!(get(&environment, "x"), Some(2.0));
    let inner = environment.with_enclosing(0);
    assert_eq!(inner, 1);
    assert_eq!(environment.current(), 1);
    environment.define(name("x"), number(3.0));
    assert_eq!(get(&environment, "x"), Some(3.0));
    environment.select(0);
    assert_eq!(get(&environment, "x"), Some(2.0));
    assert!(environment.is_well_formed());
}

#[test]
fn get_walks_outward_to_the_nearest_binding() {
    let mut environment = Environment::new();
    environment.define(name("outer"), number(1.0));
    environment.define(name("both"), number(2.0));
    let middle = environment.with_enclosing(0);
    environment.define(name("both"), number(3.0));
    environment.with_enclosing(middle);
    assert_eq!(get(&environment, "outer"), Some(1.0));
    assert_eq!(get(&environment, "both"), Some(3.0));
    assert_eq!(get(&environment, "none"), None);
}

#[test]
fn assign_rewrites_the_nearest_scope_that_binds_the_name() {
    let mut environment = Environment::new();
    environment.define(name("x"), number(1.0));
    environment.define(name("y"), number(10.0));
    environment.with_enclosing(0);
    environment.define(name("x"), number(2.0));
    assert_eq!(environment.assign(&name("x"), number(3.0)), Ok(()));
    assert_eq!(environment.assign(&name("y"), number(30.0)), Ok(()));
    assert_eq!(get(&environment, "x"), Some(3.0));
    assert_eq!(get(&environment, "y"), Some(30.0));
    environment.select(0);
    assert_eq!(get(&environment, "x"), Some(1.0));
    assert_eq!(get(&environment, "y"), Some(30.0));
    assert_eq!(
        environment.assign(&name("z"), number(0.0)),
        Err(JsEngineError::ReferenceError { message: "'z' is not defined".to_string() })
    );
    assert_eq!(get(&environment, "z"), None);
}

#[test]
fn scopes_side_by_side_do_not_see_each_other() {
    let mut environment = Environment::new();
    let first = environment.with_enclosing(0);
    environment.define(name("a"), number(1.0));
    let second = environment.with_enclosing(0);
    assert_eq!(get(&environment, "a"), None);
    environment.select(first);
    assert_eq!(get(&environment, "a"), Some(1.0));
    environment.select(second);
    assert_eq!(get(&environment, "a"), None);
}

#[test]
fn scope_that_does_not_exist_encloses_nothing_and_cannot_be_selected() {
    let mut environment = Environment::new();
    environment.define(name("x"), number(1.0));
    environment.with_enclosing(17);
    assert_eq!(get(&environment, "x"), None);
    assert!(environment.is_well_formed());
    environment.select(17);
    assert_eq!(environment.current(), 1);
}

#[test]
fn truthiness() {
    assert!(!Value::Boolean(false).is_truthy());
    assert!(Value::Boolean(true).is_truthy());
    assert!(!Value::Null.is_truthy());
    assert!(!Value::Undefined.is_truthy());
    assert!(!number(0.0).is_truthy());
    assert!(!number(-0.0).is_truthy());
    assert!(!number(f64::NAN).is_truthy());
    assert!(number(1.0).is_truthy());
    assert!(number(-0.1).is_truthy());
    assert!(number(f64::INFINITY).is_truthy());
    assert!(!Value::String(String::new()).is_truthy());
    assert!(Value::String(name("0")).is_truthy());
    assert!(Value::NativeFunction(NativeFunction::ConsoleLog).is_truthy());
    assert!(Value::Object(0).is_truthy());
}

#[test]
fn equality_of_values() {
    assert!(number(1.0).is_equal(&number(1.0)));
    assert!(!number(1.0).is_equal(&number(2.0)));
    assert!(number(0.0).is_equal(&number(-0.0)));
    assert!(!number(f64::NAN).is_equal(&number(f64::NAN)));
    assert!(Value::String(name("a")).is_equal(&Value::String(name("a"))));
    assert!(!Value::String(name("a")).is_equal(&Value::String(name("b"))));
    assert!(Value::Boolean(true).is_equal(&Value::Boolean(true)));
    assert!(!Value::Boolean(true).is_equal(&Value::Boolean(false)));
    assert!(Value::Null.is_equal(&Value::Null));
    assert!(Value::Undefined.is_equal(&Value::Undefined));
    assert!(!Value::Null.is_equal(&Value::Undefined));
    assert!(!number(1.0).is_equal(&Value::String(name("1"))));
    assert!(!Value::Boolean(false).is_equal(&number(0.0)));
    assert!(!Value::Object(1).is_equal(&Value::Object(1)));
    let native = Value::NativeFunction(NativeFunction::ConsoleLog);
    assert!(!native.is_equal(&native));
}

#[test]
fn display_forms() {
    assert_eq!(Value::String(name("a b")).display(), Some(name("a b")));
    assert_eq!(Value::Boolean(true).display(), Some(name("true")));
    assert_eq!(Value::Boolean(false).display(), Some(name("false")));
    assert_eq!(Value::Null.display(), Some(name("null")));
    assert_eq!(Value::Undefined.display(), Some(name("undefined")));
    assert_eq!(Value::Object(3).display(), Some(name("[Object]")));
    assert_eq!(
        Value::NativeFunction(NativeFunction::ConsoleLog).display(),
        Some(name("[Native Function]"))
    );
    assert_eq!(number(1.0).display(), None);
}

#[test]
fn strings_are_quoted_in_messages() {
    assert!(matches!(Value::String(name("a")).quoted(), Value::String(text) if text == "\"a\""));
    assert!(matches!(Value::String(name("")).quoted(), Value::String(text) if text == "\"\""));
    assert!(matches!(Value::Null.quoted(), Value::Null));
    assert!(matches!(number(2.0).quoted(), Value::Number(bits) if f64::from_bits(bits) == 2.0));
}

#[test]
fn results_carry_a_value_or_undefined() {
    assert!(matches!(ExecutionResult::Value(Value::Null).into_value(), Value::Null));
    assert!(matches!(ExecutionResult::Return(Value::Boolean(true)).into_value(), Value::Boolean(true)));
    assert!(matches!(ExecutionResult::Nothing.into_value(), Value::Undefined));
    assert!(matches!(ExecutionResult::Value(Value::Null).into_returned(), Value::Undefined));
    assert!(matches!(ExecutionResult::Return(Value::Null).into_returned(), Value::Null));
    assert!(matches!(ExecutionResult::Nothing.into_returned(), Value::Undefined));
}

#[test]
fn values_can_be_cloned() {
    let text = Value::String(name("copy"));
    assert!(text.is_equal(&text.clone()));
    assert!(matches!(number(4.0).clone(), Value::Number(bits) if f64::from_bits(bits) == 4.0));
}

fn parse(source: &str) -> Vec<Stmt> {
    let tokens = Lexer::new(source).scan_tokens().unwrap();
    Parser::new(tokens).parse().unwrap()
}

#[test]
fn interpreter_without_a_program_has_ended() {
    let mut interpreter = Interpreter::new();
    assert!(interpreter.is_well_formed());
    assert!(matches!(interpreter.action(), Action::Finished(Value::Undefined)));
    assert!(matches!(interpreter.step(), Action::Finished(Value::Undefined)));
    assert!(matches!(interpreter.run(10), (Action::Finished(Value::Undefined), 1)));
}

#[test]
fn run_stops_when_the_fuel_is_spent() {
    let statements = parse("while (true) { }");
    let mut interpreter = Interpreter::new();
    interpreter.interpret(&statements);
    assert!(matches!(interpreter.run(0), (Action::Continue, 0)));
    assert!(matches!(interpreter.run(1000), (Action::Continue, 1000)));
    assert!(matches!(interpreter.run(1), (Action::Continue, 1)));
    assert!(interpreter.is_well_formed());
}

#[test]
fn run_stops_at_a_request_and_at_the_end() {
    let statements = parse("true; 1;");
    let mut interpreter = Interpreter::new();
    interpreter.interpret(&statements);
    let (action, taken) = interpreter.run(1000);
    assert!(taken > 1 && taken < 1000);
    match action {
        Action::Request(Request::Parse(digits)) => assert_eq!(digits, "1"),
        other => panic!("expected a request, got {:?}", other),
    }
    // A machine that waits does not move.
    assert!(matches!(interpreter.run(5), (Action::Request(Request::Parse(_)), 1)));
    interpreter.resume(Reply::Number(1.0f64.to_bits()));
    let (action, _) = interpreter.run(1000);
    assert!(matches!(action, Action::Finished(Value::Number(bits)) if f64::from_bits(bits) == 1.0));
    assert!(matches!(interpreter.run(1000), (Action::Finished(_), 1)));
}

#[test]
fn requests_carry_the_operands() {
    let statements = parse("6 / 3;");
    let mut interpreter = Interpreter::new();
    interpreter.interpret(&statements);
    let mut asked = Vec::new();
    loop {
        match interpreter.run(100).0 {
            Action::Continue => {}
            Action::Request(Request::Parse(digits)) => {
                let bits = digits.parse::<f64>().unwrap().to_bits();
                asked.push(format!("parse {}", digits));
                interpreter.resume(Reply::Number(bits));
            }
            Action::Request(Request::Arithmetic(op, a, b)) => {
                asked.push(format!("{:?} {} {}", op, f64::from_bits(a), f64::from_bits(b)));
                interpreter.resume(Reply::Number(2.0f64.to_bits()));
            }
            Action::Request(other) => panic!("unexpected request {:?}", other),
            Action::Finished(_) => break,
            Action::Failed(e) => panic!("failed with {:?}", e),
        }
    }
    assert_eq!(asked, vec!["parse 6", "parse 3", "Divide 6 3"]);
}

#[test]
fn scopes_are_given_up_when_they_are_left() {
    let mut environment = Environment::new();
    assert_eq!(environment.scopes(), 1);
    assert_eq!(environment.with_enclosing(0), 1);
    environment.define(name("gone"), number(1.0));
    assert_eq!(environment.with_enclosing(1), 2);
    assert_eq!(environment.scopes(), 3);
    environment.leave(0);
    assert_eq!(environment.current(), 0);
    assert_eq!(environment.scopes(), 1);
    assert_eq!(environment.with_enclosing(0), 1);
    assert_eq!(get(&environment, "gone"), None);
    assert!(environment.is_well_formed());
}

#[test]
fn captured_scopes_are_kept_for_good() {
    let mut environment = Environment::new();
    environment.with_enclosing(0);
    environment.define(name("kept"), number(1.0));
    assert_eq!(environment.capture(), 1);
    environment.with_enclosing(1);
    environment.with_enclosing(2);
    assert_eq!(environment.scopes(), 4);
    environment.leave(2);
    assert_eq!(environment.scopes(), 3);
    environment.leave(0);
    assert_eq!((environment.current(), environment.scopes()), (0, 2));
    assert_eq!(get(&environment, "kept"), None);
    environment.select(1);
    assert_eq!(get(&environment, "kept"), Some(1.0));
    environment.leave(7);
    assert_eq!((environment.current(), environment.scopes()), (1, 2));
    assert!(environment.is_well_formed());
}

/// Runs `source` to its end with no arithmetic but that of the test, and
/// says how many scopes are left.
fn scopes_after(source: &str) -> usize {
    let statements = parse(source);
    let mut interpreter = Interpreter::new();
    interpreter.interpret(&statements);
    loop {
        match interpreter.run(1000).0 {
            Action::Continue => {}
            Action::Request(Request::Parse(digits)) => {
                interpreter.resume(Reply::Number(digits.parse::<f64>().unwrap().to_bits()))
            }
            Action::Request(Request::Arithmetic(_, a, b)) => {
                let sum = f64::from_bits(a) + f64::from_bits(b);
                interpreter.resume(Reply::Number(sum.to_bits()))
            }
            Action::Request(other) => panic!("unexpected request {:?}", other),
            Action::Finished(_) => break,
            Action::Failed(e) => panic!("failed with {:?}", e),
        }
    }
    assert!(interpreter.is_well_formed());
    assert_eq!(interpreter.environment().current(), 0);
    interpreter.environment().scopes()
}

#[test]
fn blocks_and_calls_leave_no_scopes_behind() {
    assert_eq!(scopes_after("var i = 0; while (i < 500) { i = i + 1; { i; } }"), 1);
    assert_eq!(
        scopes_after("function inc(n) { return n + 1; } var i = 0; while (i < 500) { i = inc(i); }"),
        1
    );
}

#[test]
fn closures_keep_their_scopes() {
    let counters = "function make() { var c = 0; return function() { c = c + 1; return c; }; } \
                    var a = make(); var b = make(); a(); b();";
    // The global scope, and for each counter the scope of the call and of
    // the body that its function captured.
    assert_eq!(scopes_after(counters), 5);
}
