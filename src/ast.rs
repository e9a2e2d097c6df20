use vstd::prelude::*;

use crate::environment::Environment;
use crate::expressions::{paren_text, texts, Expression, Printer};
use crate::scanner::{Token, TokenType};

verus! {

/// The sign bit of a double.
pub const SIGN_BIT: u64 = 0x8000_0000_0000_0000;

/// Every bit of a double but its sign.
pub const MAGNITUDE_BITS: u64 = 0x7fff_ffff_ffff_ffff;

/// The exponent bits of a double.
pub const EXPONENT_BITS: u64 = 0x7ff0_0000_0000_0000;

/// The fraction bits of a double.
pub const FRACTION_BITS: u64 = 0x000f_ffff_ffff_ffff;

/// The double whose bits are `b` is a NaN.
pub open spec fn is_nan(b: u64) -> bool {
    (b & EXPONENT_BITS) == EXPONENT_BITS && (b & FRACTION_BITS) != 0
}

/// A key that orders doubles that are not NaN as their values do; both zeros
/// get the key 0.
pub open spec fn order_key(b: u64) -> int {
    if (b & SIGN_BIT) != 0 {
        -((b & MAGNITUDE_BITS) as int)
    } else {
        (b & MAGNITUDE_BITS) as int
    }
}

/// IEEE-754 equality: NaN equals nothing, and the two zeros are equal.
pub open spec fn num_eq(a: u64, b: u64) -> bool {
    !is_nan(a) && !is_nan(b) && order_key(a) == order_key(b)
}

/// IEEE-754 `<`.
pub open spec fn num_lt(a: u64, b: u64) -> bool {
    !is_nan(a) && !is_nan(b) && order_key(a) < order_key(b)
}

/// IEEE-754 `<=`.
pub open spec fn num_le(a: u64, b: u64) -> bool {
    !is_nan(a) && !is_nan(b) && order_key(a) <= order_key(b)
}

/// IEEE-754 negation: the sign bit flips.
pub open spec fn num_neg(a: u64) -> u64 {
    a ^ SIGN_BIT
}

fn nan(b: u64) -> (r: bool)
    ensures
        r == is_nan(b),
{
    (b & EXPONENT_BITS) == EXPONENT_BITS && (b & FRACTION_BITS) != 0
}

/// Compares two doubles given by their bits: `Some(true)` where `a < b`,
/// `Some(false)` where `b < a`, `None` where they are equal or either is NaN.
fn strictly_below(a: u64, b: u64) -> (r: Option<bool>)
    ensures
        r == Some(true) <==> num_lt(a, b),
        r == Some(false) <==> num_lt(b, a),
        r is None <==> (is_nan(a) || is_nan(b) || order_key(a) == order_key(b)),
{
    if nan(a) || nan(b) {
        return None;
    }
    let ma = a & MAGNITUDE_BITS;
    let mb = b & MAGNITUDE_BITS;
    let na = (a & SIGN_BIT) != 0;
    let nb = (b & SIGN_BIT) != 0;
    if !na && !nb {
        if ma < mb {
            Some(true)
        } else if mb < ma {
            Some(false)
        } else {
            None
        }
    } else if na && nb {
        if mb < ma {
            Some(true)
        } else if ma < mb {
            Some(false)
        } else {
            None
        }
    } else if ma == 0 && mb == 0 {
        None
    } else if na {
        Some(true)
    } else {
        Some(false)
    }
}

/// `num_eq` computed on the bits.
pub fn number_equals(a: u64, b: u64) -> (r: bool)
    ensures
        r == num_eq(a, b),
{
    !nan(a) && !nan(b) && strictly_below(a, b).is_none()
}

/// `num_lt` computed on the bits.
pub fn number_less(a: u64, b: u64) -> (r: bool)
    ensures
        r == num_lt(a, b),
{
    match strictly_below(a, b) {
        Some(x) => x,
        None => false,
    }
}

/// `num_le` computed on the bits.
pub fn number_less_equal(a: u64, b: u64) -> (r: bool)
    ensures
        r == num_le(a, b),
{
    number_less(a, b) || number_equals(a, b)
}


/// A runtime value of the language.
#[derive(Debug, Clone)]
pub enum LiteralValue {
    /// A double, by its bit pattern.
    Number(u64),
    String(String),
    True,
    False,
    Nil,
}

/// A runtime value with its text as a sequence of characters.
pub enum Value {
    Number(u64),
    Str(Seq<char>),
    True,
    False,
    Nil,
}

impl View for LiteralValue {
    type V = Value;

    open spec fn view(&self) -> Value {
        match self {
            LiteralValue::Number(n) => Value::Number(*n),
            LiteralValue::String(s) => Value::Str(s@),
            LiteralValue::True => Value::True,
            LiteralValue::False => Value::False,
            LiteralValue::Nil => Value::Nil,
        }
    }
}

impl PartialEq for LiteralValue {
    fn eq(&self, other: &LiteralValue) -> (r: bool) {
        match (self, other) {
            (LiteralValue::Number(a), LiteralValue::Number(b)) => *a == *b,
            (LiteralValue::String(a), LiteralValue::String(b)) => a.eq(b),
            (LiteralValue::True, LiteralValue::True) => true,
            (LiteralValue::False, LiteralValue::False) => true,
            (LiteralValue::Nil, LiteralValue::Nil) => true,
            _ => false,
        }
    }
}

impl vstd::std_specs::cmp::PartialEqSpecImpl for LiteralValue {
    open spec fn obeys_eq_spec() -> bool {
        true
    }

    open spec fn eq_spec(&self, other: &LiteralValue) -> bool {
        self@ == other@
    }
}

/// `True` for `true`, `False` for `false`.
pub open spec fn bool_value(b: bool) -> Value {
    if b {
        Value::True
    } else {
        Value::False
    }
}

/// Only `false` and `nil` are falsy.
pub open spec fn is_truthy(v: Value) -> bool {
    !(v is False || v is Nil)
}

/// Equality of the language: same variant and same payload, numbers compared
/// as IEEE-754 doubles.
pub open spec fn values_equal(a: Value, b: Value) -> bool {
    match (a, b) {
        (Value::Number(x), Value::Number(y)) => num_eq(x, y),
        (Value::Str(x), Value::Str(y)) => x == y,
        (Value::True, Value::True) => true,
        (Value::False, Value::False) => true,
        (Value::Nil, Value::Nil) => true,
        _ => false,
    }
}

impl From<bool> for LiteralValue {
    fn from(value: bool) -> (r: LiteralValue) {
        if value {
            LiteralValue::True
        } else {
            LiteralValue::False
        }
    }
}

impl vstd::std_specs::convert::FromSpecImpl<bool> for LiteralValue {
    open spec fn obeys_from_spec() -> bool {
        true
    }

    open spec fn from_spec(value: bool) -> LiteralValue {
        if value {
            LiteralValue::True
        } else {
            LiteralValue::False
        }
    }
}

impl LiteralValue {
    /// Logical negation: `True` for `false` and `nil`, `False` for all else.
    pub fn not(&self) -> (r: LiteralValue)
        ensures
            r@ == bool_value(!is_truthy(self@)),
    {
        match self {
            LiteralValue::False | LiteralValue::Nil => LiteralValue::True,
            _ => LiteralValue::False,
        }
    }

    /// A copy with the same view.
    pub fn duplicate(&self) -> (r: LiteralValue)
        ensures
            r@ == self@,
    {
        match self {
            LiteralValue::Number(n) => LiteralValue::Number(*n),
            LiteralValue::String(s) => LiteralValue::String(s.clone()),
            LiteralValue::True => LiteralValue::True,
            LiteralValue::False => LiteralValue::False,
            LiteralValue::Nil => LiteralValue::Nil,
        }
    }

    /// Equality of the language; never fails across variants.
    pub fn equals(&self, other: &LiteralValue) -> (r: bool)
        ensures
            r == values_equal(self@, other@),
    {
        match (self, other) {
            (LiteralValue::Number(a), LiteralValue::Number(b)) => number_equals(*a, *b),
            (LiteralValue::String(a), LiteralValue::String(b)) => a.eq(b),
            (LiteralValue::True, LiteralValue::True) => true,
            (LiteralValue::False, LiteralValue::False) => true,
            (LiteralValue::Nil, LiteralValue::Nil) => true,
            _ => false,
        }
    }
}

/// The four arithmetic operations on doubles.
#[derive(Debug, Clone, Copy, PartialEq, Eq, Structural)]
pub enum ArithOp {
    Add,
    Subtract,
    Multiply,
    Divide,
}

/// An arithmetic closure that is total and deterministic.
pub open spec fn arith_consistent<F: Fn(ArithOp, u64, u64) -> u64>(arith: &F) -> bool {
    &&& forall|op: ArithOp, a: u64, b: u64| #[trigger] arith.requires((op, a, b))
    &&& forall|op: ArithOp, a: u64, b: u64, x: u64, y: u64|
        #[trigger] arith.ensures((op, a, b), x) && #[trigger] arith.ensures((op, a, b), y) ==> x
            == y
}

/// What `arith` returns on each operation and pair of operands.
pub open spec fn arith_fn<F: Fn(ArithOp, u64, u64) -> u64>(arith: &F) -> spec_fn(
    ArithOp,
    u64,
    u64,
) -> u64 {
    |op: ArithOp, a: u64, b: u64| choose|r: u64| #[trigger] arith.ensures((op, a, b), r)
}

/// A failure while evaluating.
#[derive(Debug, Clone)]
pub enum RuntimeError {
    /// An operator of `- * / > >= < <=` met an operand that is not a number.
    OperandsMustBeNumbers { line: usize },
    /// `+` met operands that are neither two numbers nor two strings.
    OperandsMustBeNumbersOrStrings { line: usize },
    /// Unary `-` met an operand that is not a number.
    OperandMustBeNumber { line: usize },
    /// A binary or unary node whose operator token is no operator of its kind.
    InvalidOperator { line: usize },
    /// A reference to a name that is not bound.
    UndefinedVariable { name: String },
}

/// The message of a runtime error.
pub open spec fn runtime_message(e: ErrorModel) -> Seq<char> {
    match e {
        ErrorModel::OperandsMustBeNumbers { .. } => "Operands must be numbers."@,
        ErrorModel::OperandsMustBeNumbersOrStrings { .. } =>
            "Operands must be two numbers or two strings."@,
        ErrorModel::OperandMustBeNumber { .. } => "Operand must be a number."@,
        ErrorModel::InvalidOperator { .. } => "Invalid operator."@,
        ErrorModel::UndefinedVariable { name } => "Undefined variable '"@ + name + "'."@,
    }
}

/// The line a runtime error is reported at, where it has one.
pub open spec fn runtime_line(e: ErrorModel) -> Option<int> {
    match e {
        ErrorModel::OperandsMustBeNumbers { line } => Some(line),
        ErrorModel::OperandsMustBeNumbersOrStrings { line } => Some(line),
        ErrorModel::OperandMustBeNumber { line } => Some(line),
        ErrorModel::InvalidOperator { line } => Some(line),
        ErrorModel::UndefinedVariable { .. } => None,
    }
}

impl RuntimeError {
    pub fn message(&self) -> (r: String)
        ensures
            r@ == runtime_message(self@),
    {
        match self {
            RuntimeError::OperandsMustBeNumbers { .. } => String::from_str(
                "Operands must be numbers.",
            ),
            RuntimeError::OperandsMustBeNumbersOrStrings { .. } => String::from_str(
                "Operands must be two numbers or two strings.",
            ),
            RuntimeError::OperandMustBeNumber { .. } => String::from_str(
                "Operand must be a number.",
            ),
            RuntimeError::InvalidOperator { .. } => String::from_str("Invalid operator."),
            RuntimeError::UndefinedVariable { name } => String::from_str(
                "Undefined variable '",
            ).concat(name.as_str()).concat("'."),
        }
    }

    /// The diagnostic line for this error; the bare message where the error
    /// has no line.
    pub fn report(&self) -> (r: String)
        ensures
            r@ == match runtime_line(self@) {
                Some(line) => crate::report_text(line as nat, Seq::empty(), runtime_message(self@)),
                None => runtime_message(self@),
            },
    {
        let message = self.message();
        match self {
            RuntimeError::OperandsMustBeNumbers { line }
            | RuntimeError::OperandsMustBeNumbersOrStrings { line }
            | RuntimeError::OperandMustBeNumber { line }
            | RuntimeError::InvalidOperator { line } => crate::error(*line, message.as_str()),
            RuntimeError::UndefinedVariable { .. } => message,
        }
    }
}

pub enum ErrorModel {
    OperandsMustBeNumbers { line: int },
    OperandsMustBeNumbersOrStrings { line: int },
    OperandMustBeNumber { line: int },
    InvalidOperator { line: int },
    UndefinedVariable { name: Seq<char> },
}

impl View for RuntimeError {
    type V = ErrorModel;

    open spec fn view(&self) -> ErrorModel {
        match self {
            RuntimeError::OperandsMustBeNumbers { line } => ErrorModel::OperandsMustBeNumbers {
                line: *line as int,
            },
            RuntimeError::OperandsMustBeNumbersOrStrings { line } =>
                ErrorModel::OperandsMustBeNumbersOrStrings { line: *line as int },
            RuntimeError::OperandMustBeNumber { line } => ErrorModel::OperandMustBeNumber {
                line: *line as int,
            },
            RuntimeError::InvalidOperator { line } => ErrorModel::InvalidOperator {
                line: *line as int,
            },
            RuntimeError::UndefinedVariable { name } => ErrorModel::UndefinedVariable {
                name: name@,
            },
        }
    }
}

/// A node of the syntax tree; each node owns its children.
#[derive(Debug)]
pub enum AstNode {
    Binary { left: Box<AstNode>, operator: Token, right: Box<AstNode> },
    Unary { operator: Token, right: Box<AstNode> },
    Grouping { node: Box<AstNode> },
    Literal { value: LiteralValue },
    VariableExpression { value: String },
    StmtExpression { value: Box<AstNode> },
    StmtPrint { value: Box<AstNode> },
    StmtVariable { name: String, initializer: Option<Box<AstNode>> },
}

/// The value of a binary operator applied to two values.
pub open spec fn binary_value(
    op: TokenType,
    line: int,
    a: Value,
    b: Value,
    arith: spec_fn(ArithOp, u64, u64) -> u64,
) -> Result<Value, ErrorModel> {
    match op {
        TokenType::Plus => match (a, b) {
            (Value::Number(x), Value::Number(y)) => Ok(Value::Number(arith(ArithOp::Add, x, y))),
            (Value::Str(x), Value::Str(y)) => Ok(Value::Str(x + y)),
            _ => Err(ErrorModel::OperandsMustBeNumbersOrStrings { line }),
        },
        TokenType::EqualEqual => Ok(bool_value(values_equal(a, b))),
        TokenType::BangEqual => Ok(bool_value(!values_equal(a, b))),
        TokenType::Minus | TokenType::Star | TokenType::Slash | TokenType::Greater
        | TokenType::GreaterEqual | TokenType::Less | TokenType::LessEqual => match (a, b) {
            (Value::Number(x), Value::Number(y)) => Ok(
                match op {
                    TokenType::Minus => Value::Number(arith(ArithOp::Subtract, x, y)),
                    TokenType::Star => Value::Number(arith(ArithOp::Multiply, x, y)),
                    TokenType::Slash => Value::Number(arith(ArithOp::Divide, x, y)),
                    TokenType::Greater => bool_value(num_lt(y, x)),
                    TokenType::GreaterEqual => bool_value(num_le(y, x)),
                    TokenType::Less => bool_value(num_lt(x, y)),
                    _ => bool_value(num_le(x, y)),
                },
            ),
            _ => Err(ErrorModel::OperandsMustBeNumbers { line }),
        },
        _ => Err(ErrorModel::InvalidOperator { line }),
    }
}

/// The value of a prefix operator applied to a value.
pub open spec fn unary_value(op: TokenType, line: int, v: Value) -> Result<Value, ErrorModel> {
    match op {
        TokenType::Bang => Ok(bool_value(!is_truthy(v))),
        TokenType::Minus => match v {
            Value::Number(x) => Ok(Value::Number(num_neg(x))),
            _ => Err(ErrorModel::OperandMustBeNumber { line }),
        },
        _ => Err(ErrorModel::InvalidOperator { line }),
    }
}

/// What evaluating a node gives: its result, the bindings afterwards, and the
/// values printed on the way, in order.
pub struct Eval {
    pub result: Result<Value, ErrorModel>,
    pub env: Map<Seq<char>, Value>,
    pub out: Seq<Value>,
}

/// Evaluation of `node` against the bindings `env`.
pub open spec fn eval(
    node: AstNode,
    env: Map<Seq<char>, Value>,
    arith: spec_fn(ArithOp, u64, u64) -> u64,
) -> Eval
    decreases node,
{
    match node {
        AstNode::Binary { left, operator, right } => {
            let l = eval(*left, env, arith);
            match l.result {
                Err(e) => l,
                Ok(a) => {
                    let r = eval(*right, l.env, arith);
                    Eval {
                        result: match r.result {
                            Err(e) => Err(e),
                            Ok(b) => binary_value(operator.ty, operator.line as int, a, b, arith),
                        },
                        env: r.env,
                        out: l.out + r.out,
                    }
                },
            }
        },
        AstNode::Unary { operator, right } => {
            let r = eval(*right, env, arith);
            Eval {
                result: match r.result {
                    Err(e) => Err(e),
                    Ok(v) => unary_value(operator.ty, operator.line as int, v),
                },
                env: r.env,
                out: r.out,
            }
        },
        AstNode::Grouping { node } => eval(*node, env, arith),
        AstNode::Literal { value } => Eval { result: Ok(value@), env, out: Seq::empty() },
        AstNode::VariableExpression { value } => Eval {
            result: if env.contains_key(value@) {
                Ok(env[value@])
            } else {
                Err(ErrorModel::UndefinedVariable { name: value@ })
            },
            env,
            out: Seq::empty(),
        },
        AstNode::StmtExpression { value } => {
            let r = eval(*value, env, arith);
            Eval {
                result: match r.result {
                    Err(e) => Err(e),
                    Ok(v) => Ok(Value::Nil),
                },
                env: r.env,
                out: r.out,
            }
        },
        AstNode::StmtPrint { value } => {
            let r = eval(*value, env, arith);
            match r.result {
                Err(e) => r,
                Ok(v) => Eval { result: Ok(Value::Nil), env: r.env, out: r.out.push(v) },
            }
        },
        AstNode::StmtVariable { name, initializer } => match initializer {
            None => Eval { result: Ok(Value::Nil), env: env.insert(name@, Value::Nil), out: Seq::empty() },
            Some(init) => {
                let r = eval(*init, env, arith);
                match r.result {
                    Err(e) => r,
                    Ok(v) => Eval { result: Ok(Value::Nil), env: r.env.insert(name@, v), out: r.out },
                }
            },
        },
    }
}


pub open spec fn values_view(s: Seq<LiteralValue>) -> Seq<Value> {
    s.map_values(|v: LiteralValue| v@)
}

pub open spec fn result_view(r: Result<LiteralValue, RuntimeError>) -> Result<Value, ErrorModel> {
    match r {
        Ok(v) => Ok(v@),
        Err(e) => Err(e@),
    }
}

fn bool_literal(b: bool) -> (r: LiteralValue)
    ensures
        r@ == bool_value(b),
{
    if b {
        LiteralValue::True
    } else {
        LiteralValue::False
    }
}

fn call_arith<F: Fn(ArithOp, u64, u64) -> u64>(arith: &F, op: ArithOp, a: u64, b: u64) -> (r: u64)
    requires
        arith_consistent(arith),
    ensures
        r == (arith_fn(arith))(op, a, b),
{
    let r = arith(op, a, b);
    proof {
        let c = choose|x: u64| #[trigger] arith.ensures((op, a, b), x);
        assert(arith.ensures((op, a, b), c));
    }
    r
}

/// Applies a binary operator to two evaluated operands.
pub fn apply_binary<F: Fn(ArithOp, u64, u64) -> u64>(
    operator: &Token,
    a: LiteralValue,
    b: LiteralValue,
    arith: &F,
) -> (r: Result<LiteralValue, RuntimeError>)
    requires
        arith_consistent(arith),
    ensures
        result_view(r) == binary_value(
            operator.ty,
            operator.line as int,
            a@,
            b@,
            arith_fn(arith),
        ),
{
    let line = operator.line;
    match operator.ty {
        TokenType::Plus => match (a, b) {
            (LiteralValue::Number(x), LiteralValue::Number(y)) => Ok(
                LiteralValue::Number(call_arith(arith, ArithOp::Add, x, y)),
            ),
            (LiteralValue::String(x), LiteralValue::String(y)) => Ok(
                LiteralValue::String(x.concat(y.as_str())),
            ),
            _ => Err(RuntimeError::OperandsMustBeNumbersOrStrings { line }),
        },
        TokenType::EqualEqual => Ok(bool_literal(a.equals(&b))),
        TokenType::BangEqual => Ok(bool_literal(!a.equals(&b))),
        TokenType::Minus | TokenType::Star | TokenType::Slash | TokenType::Greater
        | TokenType::GreaterEqual | TokenType::Less | TokenType::LessEqual => match (a, b) {
            (LiteralValue::Number(x), LiteralValue::Number(y)) => Ok(
                match operator.ty {
                    TokenType::Minus => LiteralValue::Number(
                        call_arith(arith, ArithOp::Subtract, x, y),
                    ),
                    TokenType::Star => LiteralValue::Number(
                        call_arith(arith, ArithOp::Multiply, x, y),
                    ),
                    TokenType::Slash => LiteralValue::Number(
                        call_arith(arith, ArithOp::Divide, x, y),
                    ),
                    TokenType::Greater => bool_literal(number_less(y, x)),
                    TokenType::GreaterEqual => bool_literal(number_less_equal(y, x)),
                    TokenType::Less => bool_literal(number_less(x, y)),
                    _ => bool_literal(number_less_equal(x, y)),
                },
            ),
            _ => Err(RuntimeError::OperandsMustBeNumbers { line }),
        },
        _ => Err(RuntimeError::InvalidOperator { line }),
    }
}

/// Applies a prefix operator to an evaluated operand.
pub fn apply_unary(operator: &Token, v: LiteralValue) -> (r: Result<LiteralValue, RuntimeError>)
    ensures
        result_view(r) == unary_value(operator.ty, operator.line as int, v@),
{
    match operator.ty {
        TokenType::Bang => Ok(v.not()),
        TokenType::Minus => match v {
            LiteralValue::Number(x) => Ok(LiteralValue::Number(x ^ SIGN_BIT)),
            _ => Err(RuntimeError::OperandMustBeNumber { line: operator.line }),
        },
        _ => Err(RuntimeError::InvalidOperator { line: operator.line }),
    }
}

impl AstNode {
    /// Evaluates the node against `environment`, appending every printed
    /// value to `out`. `arith` computes the four arithmetic operations on
    /// doubles given by their bits.
    pub fn evaluate<F: Fn(ArithOp, u64, u64) -> u64>(
        self,
        environment: &mut Environment,
        out: &mut Vec<LiteralValue>,
        arith: &F,
    ) -> (r: Result<LiteralValue, RuntimeError>)
        requires
            arith_consistent(arith),
        ensures
            ({
                let e = eval(self, old(environment)@, arith_fn(arith));
                &&& result_view(r) == e.result
                &&& final(environment)@ == e.env
                &&& values_view(final(out)@) == values_view(old(out)@) + e.out
            }),
        decreases self,
    {
        let ghost out0 = out@;
        match self {
            AstNode::Binary { left, operator, right } => {
                let ghost l = eval(*left, environment@, arith_fn(arith));
                let a = match (*left).evaluate(environment, out, arith) {
                    Ok(a) => a,
                    Err(e) => {
                        return Err(e);
                    },
                };
                let ghost r = eval(*right, environment@, arith_fn(arith));
                let b = match (*right).evaluate(environment, out, arith) {
                    Ok(b) => b,
                    Err(e) => {
                        assert(values_view(out@) =~= values_view(out0) + (l.out + r.out));
                        return Err(e);
                    },
                };
                assert(values_view(out@) =~= values_view(out0) + (l.out + r.out));
                apply_binary(&operator, a, b, arith)
            },
            AstNode::Unary { operator, right } => {
                match (*right).evaluate(environment, out, arith) {
                    Ok(v) => apply_unary(&operator, v),
                    Err(e) => Err(e),
                }
            },
            AstNode::Grouping { node } => (*node).evaluate(environment, out, arith),
            AstNode::Literal { value } => {
                assert(values_view(out@) =~= values_view(out0) + Seq::<Value>::empty());
                Ok(value)
            },
            AstNode::VariableExpression { value } => {
                assert(values_view(out@) =~= values_view(out0) + Seq::<Value>::empty());
                match environment.get(value.clone()) {
                    Some(v) => Ok(v),
                    None => Err(RuntimeError::UndefinedVariable { name: value }),
                }
            },
            AstNode::StmtExpression { value } => {
                match (*value).evaluate(environment, out, arith) {
                    Ok(_) => Ok(LiteralValue::Nil),
                    Err(e) => Err(e),
                }
            },
            AstNode::StmtPrint { value } => {
                match (*value).evaluate(environment, out, arith) {
                    Ok(v) => {
                        let ghost before = out@;
                        out.push(v);
                        assert(values_view(out@) =~= values_view(before).push(v@));
                        Ok(LiteralValue::Nil)
                    },
                    Err(e) => Err(e),
                }
            },
            AstNode::StmtVariable { name, initializer } => {
                match initializer {
                    None => {
                        assert(values_view(out@) =~= values_view(out0) + Seq::<Value>::empty());
                        environment.define(name, LiteralValue::Nil);
                        Ok(LiteralValue::Nil)
                    },
                    Some(init) => match (*init).evaluate(environment, out, arith) {
                        Ok(v) => {
                            environment.define(name, v);
                            Ok(LiteralValue::Nil)
                        },
                        Err(e) => Err(e),
                    },
                }
            },
        }
    }
}


/// A number formatter that is total and gives each number one text.
pub open spec fn shows_consistently<S: Fn(u64) -> String>(show: &S) -> bool {
    &&& forall|b: u64| #[trigger] show.requires((b,))
    &&& forall|b: u64, s1: String, s2: String|
        #[trigger] show.ensures((b,), s1) && #[trigger] show.ensures((b,), s2) ==> s1@ == s2@
}

/// The text that `show` gives each number.
pub open spec fn shown<S: Fn(u64) -> String>(show: &S) -> spec_fn(u64) -> Seq<char> {
    |b: u64| (choose|s: String| #[trigger] show.ensures((b,), s))@
}

fn call_show<S: Fn(u64) -> String>(show: &S, b: u64) -> (r: String)
    requires
        shows_consistently(show),
    ensures
        r@ == (shown(show))(b),
{
    let r = show(b);
    proof {
        let c = choose|s: String| #[trigger] show.ensures((b,), s);
        assert(show.ensures((b,), c));
    }
    r
}

/// The printed text of a value: numbers as `num` renders them, strings raw,
/// and `true`, `false`, `nil`.
pub open spec fn value_text(v: Value, num: spec_fn(u64) -> Seq<char>) -> Seq<char> {
    match v {
        Value::Number(b) => num(b),
        Value::Str(s) => s,
        Value::True => "true"@,
        Value::False => "false"@,
        Value::Nil => "nil"@,
    }
}

/// The text a print statement writes for `value`.
pub fn stringify_value<S: Fn(u64) -> String>(value: &LiteralValue, show: &S) -> (r: String)
    requires
        shows_consistently(show),
    ensures
        r@ == value_text(value@, shown(show)),
{
    match value {
        LiteralValue::Number(b) => call_show(show, *b),
        LiteralValue::String(s) => s.clone(),
        LiteralValue::True => String::from_str("true"),
        LiteralValue::False => String::from_str("false"),
        LiteralValue::Nil => String::from_str("nil"),
    }
}

/// The prefix-form text of a node.
pub open spec fn node_text(node: AstNode, num: spec_fn(u64) -> Seq<char>) -> Seq<char>
    decreases node,
{
    match node {
        AstNode::Binary { left, operator, right } => paren_text(
            operator.lexeme@,
            seq![node_text(*left, num), node_text(*right, num)],
        ),
        AstNode::Unary { operator, right } => paren_text(
            operator.lexeme@,
            seq![node_text(*right, num)],
        ),
        AstNode::Grouping { node } => node_text(*node, num),
        AstNode::Literal { value } => value_text(value@, num),
        AstNode::VariableExpression { value } => "var expression "@ + value@,
        AstNode::StmtExpression { value } => "stmt expr "@ + node_text(*value, num),
        AstNode::StmtPrint { value } => "print "@ + node_text(*value, num),
        AstNode::StmtVariable { name, initializer } => match initializer {
            Some(init) => "var "@ + name@ + " = "@ + node_text(*init, num),
            None => "var "@ + name@,
        },
    }
}

impl Expression for AstNode {
    open spec fn text(&self, num: spec_fn(u64) -> Seq<char>) -> Seq<char> {
        node_text(*self, num)
    }

    fn to_string<S: Fn(u64) -> String>(&self, show: &S) -> (r: String)
        decreases self,
    {
        match self {
            AstNode::Binary { left, operator, right } => {
                let mut parts: Vec<String> = Vec::new();
                parts.push(left.to_string(show));
                parts.push(right.to_string(show));
                assert(texts(parts@) =~= seq![
                    node_text(**left, shown(show)),
                    node_text(**right, shown(show)),
                ]);
                Printer::parenthesize(operator.lexeme.clone(), &parts)
            },
            AstNode::Unary { operator, right } => {
                let mut parts: Vec<String> = Vec::new();
                parts.push(right.to_string(show));
                assert(texts(parts@) =~= seq![node_text(**right, shown(show))]);
                Printer::parenthesize(operator.lexeme.clone(), &parts)
            },
            AstNode::Grouping { node } => node.to_string(show),
            AstNode::Literal { value } => stringify_value(value, show),
            AstNode::VariableExpression { value } => String::from_str("var expression ").concat(
                value.as_str(),
            ),
            AstNode::StmtExpression { value } => String::from_str("stmt expr ").concat(
                value.to_string(show).as_str(),
            ),
            AstNode::StmtPrint { value } => String::from_str("print ").concat(
                value.to_string(show).as_str(),
            ),
            AstNode::StmtVariable { name, initializer } => match initializer {
                Some(init) => String::from_str("var ").concat(name.as_str()).concat(" = ").concat(
                    init.to_string(show).as_str(),
                ),
                None => String::from_str("var ").concat(name.as_str()),
            },
        }
    }
}

pub open spec fn node_texts(exprs: Seq<&AstNode>, num: spec_fn(u64) -> Seq<char>) -> Seq<Seq<char>> {
    exprs.map_values(|e: &AstNode| node_text(*e, num))
}

impl AstNode {
    /// `(name e1 e2 ...)` with each node rendered in prefix form.
    pub fn parenthesize<S: Fn(u64) -> String>(name: String, exprs: &Vec<&AstNode>, show: &S) -> (r:
        String)
        requires
            shows_consistently(show),
        ensures
            r@ == paren_text(name@, node_texts(exprs@, shown(show))),
    {
        let mut parts: Vec<String> = Vec::new();
        let mut i: usize = 0;
        while i < exprs.len()
            invariant
                shows_consistently(show),
                i <= exprs.len(),
                texts(parts@) == node_texts(exprs@.subrange(0, i as int), shown(show)),
            decreases exprs.len() - i,
        {
            let e: &AstNode = exprs[i];
            let text = e.to_string(show);
            assert(text@ == node_text(*exprs@[i as int], shown(show)));
            let ghost before = parts@;
            parts.push(text);
            assert(texts(parts@) =~= texts(before).push(text@));
            assert(texts(parts@) =~= node_texts(exprs@.subrange(0, i + 1), shown(show)));
            i += 1;
        }
        assert(exprs@.subrange(0, exprs.len() as int) =~= exprs@);
        Printer::parenthesize(name, &parts)
    }
}

} // verus!
