use rlox::ast::{
    number_equals, number_less, number_less_equal, stringify_value, ArithOp, LiteralValue,
    RuntimeError,
};
use rlox::environment::Environment;
use rlox::{error, report, run, RunOutcome};

fn parse_number(text: String) -> u64 {
    text.parse::<f64>().unwrap().to_bits()
}

fn arith(op: ArithOp, a: u64, b: u64) -> u64 {
    let (x, y) = (f64::from_bits(a), f64::from_bits(b));
    let r = match op {
        ArithOp::Add => x + y,
        ArithOp::Subtract => x - y,
        ArithOp::Multiply => x * y,
        ArithOp::Divide => x / y,
    };
    r.to_bits()
}

fn show_number(bits: u64) -> String {
    format!("{}", f64::from_bits(bits))
}

fn num(x: f64) -> LiteralValue {
    LiteralValue::Number(x.to_bits())
}

fn text(s: &str) -> LiteralValue {
    LiteralValue::String(s.to_string())
}

fn run_in(source: &str, env: &mut Environment) -> RunOutcome {
    run(source.to_string(), env, &parse_number, &arith)
}

fn run_fresh(source: &str) -> RunOutcome {
    let mut env = Environment::new();
    run_in(source, &mut env)
}

fn printed(source: &str) -> Vec<LiteralValue> {
    let outcome = run_fresh(source);
    assert!(outcome.parse_error.is_none());
    assert!(outcome.runtime_error.is_none());
    outcome.printed
}

#[test]
fn arithmetic_follows_precedence() {
    assert_eq!(printed("print 1 + 2 * 3;"), vec![num(7.0)]);
    assert_eq!(printed("print (1 + 2) * 3;"), vec![num(9.0)]);
    assert_eq!(printed("print 10 - 4 - 3;"), vec![num(3.0)]);
    assert_eq!(printed("print 7 / 2;"), vec![num(3.5)]);
    assert_eq!(printed("print 0.1 + 0.2;"), vec![num(0.1 + 0.2)]);
}

#[test]
fn division_by_zero_follows_ieee() {
    assert_eq!(printed("print 1 / 0;"), vec![num(f64::INFINITY)]);
    assert_eq!(printed("print -1 / 0;"), vec![num(f64::NEG_INFINITY)]);
    match &printed("print 0 / 0;")[0] {
        LiteralValue::Number(b) => assert!(f64::from_bits(*b).is_nan()),
        _ => panic!("expected a number"),
    }
}

#[test]
fn negation_flips_the_sign() {
    assert_eq!(printed("print -3;"), vec![num(-3.0)]);
    assert_eq!(printed("print --3;"), vec![num(3.0)]);
    assert_eq!(printed("print -0;"), vec![num(-0.0)]);
}

#[test]
fn string_concatenation_left_to_right() {
    assert_eq!(printed("print \"a\" + \"b\" + \"c\";"), vec![text("abc")]);
    assert_eq!(printed("print \"b\" + \"a\";"), vec![text("ba")]);
}

#[test]
fn truthiness() {
    assert_eq!(
        printed("print !nil; print !false; print !0; print !\"\"; print !true;"),
        vec![
            LiteralValue::True,
            LiteralValue::True,
            LiteralValue::False,
            LiteralValue::False,
            LiteralValue::False,
        ]
    );
}

#[test]
fn equality_across_types() {
    assert_eq!(
        printed("print 1 == 1; print \"1\" == 1; print nil == false; print \"a\" != \"a\";"),
        vec![LiteralValue::True, LiteralValue::False, LiteralValue::False, LiteralValue::False]
    );
    assert_eq!(
        printed("print 0 == -0; print (0/0) == (0/0); print nil == nil;"),
        vec![LiteralValue::True, LiteralValue::False, LiteralValue::True]
    );
}

#[test]
fn comparisons() {
    assert_eq!(
        printed("print 1 < 2; print 2 <= 2; print 3 > 4; print 4 >= 4; print -1 < -2;"),
        vec![
            LiteralValue::True,
            LiteralValue::True,
            LiteralValue::False,
            LiteralValue::True,
            LiteralValue::False,
        ]
    );
    assert_eq!(printed("print (0/0) < 1; print -0 < 0;"), vec![LiteralValue::False, LiteralValue::False]);
}

#[test]
fn variable_round_trip() {
    let mut env = Environment::new();
    let outcome = run_in("var x = 5; print x;", &mut env);
    assert_eq!(outcome.printed, vec![num(5.0)]);
    assert_eq!(env.get("x".to_string()), Some(num(5.0)));
    let later = run_in("print x + 1;", &mut env);
    assert_eq!(later.printed, vec![num(6.0)]);
}

#[test]
fn undeclared_variable_fails() {
    let outcome = run_fresh("print y;");
    match outcome.runtime_error {
        Some(RuntimeError::UndefinedVariable { name }) => assert_eq!(name, "y"),
        other => panic!("unexpected {:?}", other),
    }
    assert!(outcome.printed.is_empty());
}

#[test]
fn redeclaration_shadows() {
    let outcome = run_fresh("var x = 1; var x = 2; print x;");
    let shown: Vec<String> = outcome.printed.iter().map(|v| stringify_value(v, &show_number)).collect();
    assert_eq!(shown, vec!["2".to_string()]);
}

#[test]
fn declaration_without_initializer_binds_nil() {
    assert_eq!(printed("var z; print z;"), vec![LiteralValue::Nil]);
}

#[test]
fn type_errors() {
    assert!(matches!(
        run_fresh("print 1 + \"a\";").runtime_error,
        Some(RuntimeError::OperandsMustBeNumbersOrStrings { line: 1 })
    ));
    assert!(matches!(
        run_fresh("\n\nprint -\"a\";").runtime_error,
        Some(RuntimeError::OperandMustBeNumber { line: 3 })
    ));
    assert!(matches!(
        run_fresh("print 1 < \"a\";").runtime_error,
        Some(RuntimeError::OperandsMustBeNumbers { line: 1 })
    ));
    assert!(matches!(
        run_fresh("print true * 2;").runtime_error,
        Some(RuntimeError::OperandsMustBeNumbers { line: 1 })
    ));
}

#[test]
fn runtime_error_stops_the_run() {
    let mut env = Environment::new();
    let outcome = run_in("print 1; print x; var a = 3;", &mut env);
    assert_eq!(outcome.printed, vec![num(1.0)]);
    assert!(outcome.runtime_error.is_some());
    assert_eq!(env.get("a".to_string()), None);
}

#[test]
fn parse_error_stops_before_evaluation() {
    let mut env = Environment::new();
    let outcome = run_in("var a = 1; print 1 +", &mut env);
    assert!(outcome.parse_error.is_some());
    assert!(outcome.printed.is_empty());
    assert_eq!(env.get("a".to_string()), None);
}

#[test]
fn lexical_errors_do_not_stop_the_run() {
    let outcome = run_fresh("print 1; @");
    assert_eq!(outcome.scan_errors.len(), 1);
    assert_eq!(outcome.printed, vec![num(1.0)]);
}

#[test]
fn stringify_values() {
    assert_eq!(stringify_value(&num(7.0), &show_number), "7");
    assert_eq!(stringify_value(&num(2.5), &show_number), "2.5");
    assert_eq!(stringify_value(&text("hi"), &show_number), "hi");
    assert_eq!(stringify_value(&LiteralValue::True, &show_number), "true");
    assert_eq!(stringify_value(&LiteralValue::False, &show_number), "false");
    assert_eq!(stringify_value(&LiteralValue::Nil, &show_number), "nil");
}

#[test]
fn runtime_error_reports() {
    let e = RuntimeError::OperandsMustBeNumbers { line: 2 };
    assert_eq!(e.report(), "[line 2] Error: Operands must be numbers.");
    let u = RuntimeError::UndefinedVariable { name: "q".to_string() };
    assert_eq!(u.report(), "Undefined variable 'q'.");
}

#[test]
fn diagnostic_format() {
    assert_eq!(error(12, "Unexpected character."), "[line 12] Error: Unexpected character.");
    assert_eq!(report(3, " at end", "Expect expression."), "[line 3] Error at end: Expect expression.");
    assert_eq!(rlox::decimal_text(0), "0");
    assert_eq!(rlox::decimal_text(9075), "9075");
}

#[test]
fn literal_value_operations() {
    assert_eq!(LiteralValue::from(true), LiteralValue::True);
    assert_eq!(LiteralValue::from(false), LiteralValue::False);
    assert_eq!(LiteralValue::Nil.not(), LiteralValue::True);
    assert_eq!(num(0.0).not(), LiteralValue::False);
    assert!(num(0.0).equals(&num(-0.0)));
    assert!(!text("1").equals(&num(1.0)));
}

#[test]
fn environment_define_and_get() {
    let mut env = Environment::new();
    assert_eq!(env.get("a".to_string()), None);
    env.define("a".to_string(), num(1.0));
    env.define("b".to_string(), text("x"));
    env.define("a".to_string(), LiteralValue::True);
    assert_eq!(env.get("a".to_string()), Some(LiteralValue::True));
    assert_eq!(env.get("b".to_string()), Some(text("x")));
}

#[test]
fn number_comparisons_on_bits() {
    let b = |x: f64| x.to_bits();
    assert!(number_less(b(-2.0), b(1.0)));
    assert!(!number_less(b(1.0), b(1.0)));
    assert!(number_less_equal(b(1.0), b(1.0)));
    assert!(number_less(b(f64::NEG_INFINITY), b(-1e300)));
    assert!(number_equals(b(0.0), b(-0.0)));
    assert!(!number_equals(b(f64::NAN), b(f64::NAN)));
    assert!(!number_less_equal(b(f64::NAN), b(1.0)));
}
