//! Scanner, parser and tree-walking evaluator for a small dynamically typed
//! scripting language.
//!
//! Numbers of the language are IEEE-754 doubles. The library carries each one
//! as its bit pattern (`u64`); negation and comparisons are computed here on
//! the bits, while decimal parsing and the four arithmetic operations are
//! handed to the caller as closures.
use vstd::prelude::*;

pub mod ast;
pub mod ast_printer;
pub mod environment;
pub mod expressions;
pub mod parser;
pub mod scanner;
pub mod semantics;

use crate::ast::{
    arith_consistent, arith_fn, eval, values_view, ArithOp, AstNode, ErrorModel, LiteralValue,
    RuntimeError, Value,
};
use crate::environment::Environment;
use crate::parser::{p_program, ParseError, Parser};
use crate::scanner::{
    error_models, number_fn, parses_consistently, scan, token_models, ScanError, Scanner,
};

verus! {

/// The decimal digits of `n`.
pub open spec fn decimal(n: nat) -> Seq<char>
    decreases n,
{
    if n < 10 {
        seq![digit_char(n)]
    } else {
        decimal(n / 10).push(digit_char(n % 10))
    }
}

pub open spec fn digit_char(d: nat) -> char {
    if d == 0 {
        '0'
    } else if d == 1 {
        '1'
    } else if d == 2 {
        '2'
    } else if d == 3 {
        '3'
    } else if d == 4 {
        '4'
    } else if d == 5 {
        '5'
    } else if d == 6 {
        '6'
    } else if d == 7 {
        '7'
    } else if d == 8 {
        '8'
    } else {
        '9'
    }
}

fn digit_text(d: usize) -> (r: &'static str)
    requires
        d < 10,
    ensures
        r@ == seq![digit_char(d as nat)],
{
    proof {
        reveal_strlit("0");
        reveal_strlit("1");
        reveal_strlit("2");
        reveal_strlit("3");
        reveal_strlit("4");
        reveal_strlit("5");
        reveal_strlit("6");
        reveal_strlit("7");
        reveal_strlit("8");
        reveal_strlit("9");
    }
    if d == 0 {
        "0"
    } else if d == 1 {
        "1"
    } else if d == 2 {
        "2"
    } else if d == 3 {
        "3"
    } else if d == 4 {
        "4"
    } else if d == 5 {
        "5"
    } else if d == 6 {
        "6"
    } else if d == 7 {
        "7"
    } else if d == 8 {
        "8"
    } else {
        "9"
    }
}

/// `n` written in decimal.
pub fn decimal_text(n: usize) -> (r: String)
    ensures
        r@ == decimal(n as nat),
    decreases n,
{
    if n < 10 {
        String::from_str(digit_text(n))
    } else {
        let head = decimal_text(n / 10);
        let r = head.concat(digit_text(n % 10));
        r
    }
}

/// The diagnostic line `[line N] Error<where>: <message>`.
pub open spec fn report_text(line: nat, where_: Seq<char>, message: Seq<char>) -> Seq<char> {
    "[line "@ + decimal(line) + "] Error"@ + where_ + ": "@ + message
}

/// Formats a diagnostic for `line`; `where_` is empty, ` at end` or
/// ` at '<lexeme>'`.
pub fn report(line: usize, where_: &str, message: &str) -> (r: String)
    ensures
        r@ == report_text(line as nat, where_@, message@),
{
    let r = String::from_str("[line ").concat(decimal_text(line).as_str()).concat(
        "] Error",
    ).concat(where_).concat(": ").concat(message);
    r
}

/// Formats a diagnostic with no location inside the line.
pub fn error(line: usize, message: &str) -> (r: String)
    ensures
        r@ == report_text(line as nat, Seq::empty(), message@),
{
    proof {
        reveal_strlit("");
    }
    report(line, "", message)
}

/// The statements' combined effect: the first runtime error, if any, the
/// bindings afterwards, and every value printed, in order. Evaluation stops
/// at the first runtime error.
pub open spec fn run_statements(
    stmts: Seq<AstNode>,
    env: Map<Seq<char>, Value>,
    arith: spec_fn(ArithOp, u64, u64) -> u64,
) -> (Option<ErrorModel>, Map<Seq<char>, Value>, Seq<Value>)
    decreases stmts.len(),
{
    if stmts.len() == 0 {
        (None, env, Seq::empty())
    } else {
        let e = eval(stmts[0], env, arith);
        match e.result {
            Err(x) => (Some(x), e.env, e.out),
            Ok(_) => {
                let r = run_statements(stmts.drop_first(), e.env, arith);
                (r.0, r.1, e.out + r.2)
            },
        }
    }
}

/// Evaluates statements in order against `environment`, appending printed
/// values to `out`; stops at the first runtime error and returns it.
pub fn execute<F: Fn(ArithOp, u64, u64) -> u64>(
    statements: Vec<AstNode>,
    environment: &mut Environment,
    out: &mut Vec<LiteralValue>,
    arith: &F,
) -> (r: Option<RuntimeError>)
    requires
        arith_consistent(arith),
    ensures
        ({
            let s = run_statements(statements@, old(environment)@, arith_fn(arith));
            &&& match r {
                Some(e) => s.0 == Some(e@),
                None => s.0 is None,
            }
            &&& final(environment)@ == s.1
            &&& values_view(final(out)@) == values_view(old(out)@) + s.2
        }),
{
    let ghost goal = run_statements(statements@, environment@, arith_fn(arith));
    let ghost out0 = out@;
    let ghost stmts0 = statements@;
    let mut rest = statements;
    while rest.len() > 0
        invariant
            arith_consistent(arith),
            out0 == old(out)@,
            stmts0 == statements@,
            goal == run_statements(stmts0, old(environment)@, arith_fn(arith)),
            ({
                let s = run_statements(rest@, environment@, arith_fn(arith));
                &&& goal.0 == s.0
                &&& goal.1 == s.1
                &&& values_view(out0) + goal.2 == values_view(out@) + s.2
            }),
        decreases rest.len(),
    {
        let ghost tail = rest@.drop_first();
        let ghost out1 = out@;
        let ghost env1 = environment@;
        let stmt = rest.remove(0);
        assert(rest@ == tail);
        match stmt.evaluate(environment, out, arith) {
            Ok(_) => {
                let ghost s = run_statements(rest@, environment@, arith_fn(arith));
                let ghost e = eval(stmt, env1, arith_fn(arith));
                assert(values_view(out@) + s.2 =~= values_view(out1) + (e.out + s.2));
            },
            Err(e) => {
                assert(values_view(out0) + goal.2 == values_view(out1) + eval(stmt, env1, arith_fn(arith)).out);
                return Some(e);
            },
        }
    }
    assert(values_view(out@) + Seq::<Value>::empty() =~= values_view(out@));
    None
}

/// What one run of a source text produced.
pub struct RunOutcome {
    /// The values that print statements wrote, in order.
    pub printed: Vec<LiteralValue>,
    /// The lexical errors, in order.
    pub scan_errors: Vec<ScanError>,
    /// The parse error that stopped the run before evaluation, if any.
    pub parse_error: Option<ParseError>,
    /// The runtime error that stopped evaluation, if any.
    pub runtime_error: Option<RuntimeError>,
}

/// Scans, parses and evaluates `input` against `environment`. Lexical errors
/// are recorded and scanning goes on; a parse error stops the run before any
/// statement is evaluated; a runtime error stops evaluation.
pub fn run<P: Fn(String) -> u64, F: Fn(ArithOp, u64, u64) -> u64>(
    input: String,
    environment: &mut Environment,
    parse: &P,
    arith: &F,
) -> (r: RunOutcome)
    requires
        input@.len() < usize::MAX,
        parses_consistently(parse),
        arith_consistent(arith),
    ensures
        ({
            let lexed = scan(input@, number_fn(parse));
            &&& error_models(r.scan_errors@) == lexed.1
            &&& exists|tokens: Seq<crate::scanner::Token>|
                #![trigger token_models(tokens)]
                token_models(tokens) == lexed.0 && match p_program(tokens, 0) {
                    Err(x) => r.parse_error == Some(x) && r.runtime_error is None
                        && r.printed@.len() == 0 && final(environment)@ == old(environment)@,
                    Ok(stmts) => {
                        let s = run_statements(stmts, old(environment)@, arith_fn(arith));
                        &&& r.parse_error is None
                        &&& match r.runtime_error {
                            Some(e) => s.0 == Some(e@),
                            None => s.0 is None,
                        }
                        &&& final(environment)@ == s.1
                        &&& values_view(r.printed@) == s.2
                    },
                }
        }),
{
    let mut scanner = Scanner::new(input);
    scanner.scan_tokens(parse);
    let scan_errors = scanner.errors().clone();
    let ghost errs = scanner.errors_view();
    let tokens = scanner.into_tokens();
    assert(token_models(tokens@).last() == tokens@.last()@);
    let mut parser = Parser::new(tokens);
    let mut printed: Vec<LiteralValue> = Vec::new();
    match parser.parse() {
        Err(x) => {
            assert(values_view(printed@) =~= Seq::<Value>::empty());
            RunOutcome { printed, scan_errors, parse_error: Some(x), runtime_error: None }
        },
        Ok(statements) => {
            let runtime_error = execute(statements, environment, &mut printed, arith);
            assert(values_view(printed@) =~= Seq::<Value>::empty() + values_view(printed@));
            RunOutcome { printed, scan_errors, parse_error: None, runtime_error }
        },
    }
}

} // verus!
