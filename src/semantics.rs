//! Facts about evaluation, proved from the definitions of `eval` and
//! `run_statements`.
use vstd::prelude::*;

use crate::ast::{
    binary_value, bool_value, eval, unary_value, values_equal, ArithOp, AstNode, ErrorModel,
    LiteralValue, Value,
};
use crate::parser::{level_op, p_expr, p_expression, p_primary, p_rest, p_unary, ty_at, ParseError};
use crate::run_statements;
use crate::scanner::{Token, TokenType, TokenValue};

verus! {

/// `+` on strings concatenates left to right: `a + b + c` evaluates to the
/// text of `a`, then `b`, then `c`.
pub proof fn lemma_concat_left_to_right(
    a: String,
    b: String,
    c: String,
    first: Token,
    second: Token,
    env: Map<Seq<char>, Value>,
    arith: spec_fn(ArithOp, u64, u64) -> u64,
)
    requires
        first.ty == TokenType::Plus,
        second.ty == TokenType::Plus,
    ensures
        eval(
            AstNode::Binary {
                left: Box::new(
                    AstNode::Binary {
                        left: Box::new(AstNode::Literal { value: LiteralValue::String(a) }),
                        operator: first,
                        right: Box::new(AstNode::Literal { value: LiteralValue::String(b) }),
                    },
                ),
                operator: second,
                right: Box::new(AstNode::Literal { value: LiteralValue::String(c) }),
            },
            env,
            arith,
        ).result == Ok::<Value, ErrorModel>(Value::Str(a@ + b@ + c@)),
{
    reveal_with_fuel(eval, 3);
}

/// `+` on strings is not commutative: where `a + b` and `b + a` differ as
/// texts, the two evaluations differ.
pub proof fn lemma_concat_order_matters(a: Seq<char>, b: Seq<char>, line: int, arith: spec_fn(ArithOp, u64, u64) -> u64)
    requires
        a + b != b + a,
    ensures
        binary_value(TokenType::Plus, line, Value::Str(a), Value::Str(b), arith) != binary_value(
            TokenType::Plus,
            line,
            Value::Str(b),
            Value::Str(a),
            arith,
        ),
{
}

/// `!` yields `true` exactly for `nil` and `false`; every number, zero
/// included, is truthy.
pub proof fn lemma_truthiness(v: Value, line: int)
    ensures
        unary_value(TokenType::Bang, line, v) == Ok::<Value, ErrorModel>(
            if v is Nil || v is False {
                Value::True
            } else {
                Value::False
            },
        ),
        v is Number ==> unary_value(TokenType::Bang, line, v) == Ok::<Value, ErrorModel>(
            Value::False,
        ),
{
}

/// `==` and `!=` never fail, whatever the operands; operands of different
/// variants are unequal.
pub proof fn lemma_equality_total(
    a: Value,
    b: Value,
    line: int,
    arith: spec_fn(ArithOp, u64, u64) -> u64,
)
    ensures
        binary_value(TokenType::EqualEqual, line, a, b, arith) == Ok::<Value, ErrorModel>(
            bool_value(values_equal(a, b)),
        ),
        binary_value(TokenType::BangEqual, line, a, b, arith) == Ok::<Value, ErrorModel>(
            bool_value(!values_equal(a, b)),
        ),
        !same_variant(a, b) ==> binary_value(TokenType::EqualEqual, line, a, b, arith) == Ok::<
            Value,
            ErrorModel,
        >(Value::False),
{
}

pub open spec fn same_variant(a: Value, b: Value) -> bool {
    match (a, b) {
        (Value::Number(_), Value::Number(_)) => true,
        (Value::Str(_), Value::Str(_)) => true,
        (Value::True, Value::True) => true,
        (Value::False, Value::False) => true,
        (Value::Nil, Value::Nil) => true,
        _ => false,
    }
}

/// A declared variable reads back the value of its initializer, in the
/// environment the declaration leaves.
pub proof fn lemma_variable_round_trip(
    name: String,
    reference: String,
    init: AstNode,
    env: Map<Seq<char>, Value>,
    arith: spec_fn(ArithOp, u64, u64) -> u64,
)
    requires
        reference@ == name@,
        eval(init, env, arith).result is Ok,
    ensures
        ({
            let declared = eval(
                AstNode::StmtVariable { name, initializer: Some(Box::new(init)) },
                env,
                arith,
            );
            &&& declared.result == Ok::<Value, ErrorModel>(Value::Nil)
            &&& eval(AstNode::VariableExpression { value: reference }, declared.env, arith).result
                == eval(init, env, arith).result
        }),
{
}

/// A reference to a name that is not bound fails with an undefined-variable
/// error and changes nothing.
pub proof fn lemma_undefined_variable(
    name: String,
    env: Map<Seq<char>, Value>,
    arith: spec_fn(ArithOp, u64, u64) -> u64,
)
    requires
        !env.contains_key(name@),
    ensures
        eval(AstNode::VariableExpression { value: name }, env, arith).result == Err::<
            Value,
            ErrorModel,
        >(ErrorModel::UndefinedVariable { name: name@ }),
        eval(AstNode::VariableExpression { value: name }, env, arith).env == env,
{
}

/// Declaring a name twice keeps the second value: `var x = a; var x = b;
/// print x;` prints `b` and leaves `x` bound to `b`.
pub proof fn lemma_redeclaration_shadows(
    first: String,
    second: String,
    reference: String,
    a: LiteralValue,
    b: LiteralValue,
    env: Map<Seq<char>, Value>,
    arith: spec_fn(ArithOp, u64, u64) -> u64,
)
    requires
        second@ == first@,
        reference@ == first@,
    ensures
        run_statements(
            seq![
                AstNode::StmtVariable {
                    name: first,
                    initializer: Some(Box::new(AstNode::Literal { value: a })),
                },
                AstNode::StmtVariable {
                    name: second,
                    initializer: Some(Box::new(AstNode::Literal { value: b })),
                },
                AstNode::StmtPrint {
                    value: Box::new(AstNode::VariableExpression { value: reference }),
                },
            ],
            env,
            arith,
        ) == (None::<ErrorModel>, env.insert(first@, b@), seq![b@]),
{
    let s = seq![
        AstNode::StmtVariable {
            name: first,
            initializer: Some(Box::new(AstNode::Literal { value: a })),
        },
        AstNode::StmtVariable {
            name: second,
            initializer: Some(Box::new(AstNode::Literal { value: b })),
        },
        AstNode::StmtPrint { value: Box::new(AstNode::VariableExpression { value: reference }) },
    ];
    let env1 = env.insert(first@, a@);
    let env2 = env1.insert(first@, b@);
    assert(env2 =~= env.insert(first@, b@));
    let s2 = s.drop_first().drop_first();
    assert(s2.drop_first() =~= Seq::<AstNode>::empty());
    reveal_with_fuel(eval, 2);
    let printed = eval(s2[0], env2, arith);
    assert(printed.out =~= seq![b@]);
    assert(printed.env == env2);
    assert(run_statements(s2.drop_first(), env2, arith).2 =~= Seq::<Value>::empty());
    assert(run_statements(s2, env2, arith).2 =~= seq![b@]);
    assert(eval(s.drop_first()[0], env1, arith).env == env2);
    assert(eval(s.drop_first()[0], env1, arith).out =~= Seq::<Value>::empty());
    assert(run_statements(s.drop_first(), env1, arith).2 =~= seq![b@]);
    assert(run_statements(s, env, arith).2 =~= seq![b@]);
}


/// A number token carrying the bits `x`.
pub open spec fn is_number_token(tk: Token, x: u64) -> bool {
    tk.ty == TokenType::Number && tk.literal == Some(TokenValue::NumberLiteral(x))
}

pub open spec fn number_node(x: u64) -> AstNode {
    AstNode::Literal { value: LiteralValue::Number(x) }
}

/// The arithmetic operation of an operator token kind.
pub open spec fn arith_op(ty: TokenType) -> ArithOp {
    if ty == TokenType::Plus {
        ArithOp::Add
    } else if ty == TokenType::Minus {
        ArithOp::Subtract
    } else if ty == TokenType::Star {
        ArithOp::Multiply
    } else {
        ArithOp::Divide
    }
}

pub open spec fn additive(ty: TokenType) -> bool {
    ty == TokenType::Plus || ty == TokenType::Minus
}

pub open spec fn multiplicative(ty: TokenType) -> bool {
    ty == TokenType::Star || ty == TokenType::Slash
}

proof fn lemma_number_operand(t: Seq<Token>, p: int, x: u64, level: nat)
    requires
        0 <= p < t.len() - 1,
        is_number_token(t[p], x),
        1 <= level <= 6,
        forall|l: nat| 3 <= l <= level ==> !#[trigger] level_op(l, ty_at(t, p + 1)),
    ensures
        p_expr(t, p, level) == Ok::<(AstNode, int), ParseError>((number_node(x), p + 1)),
    decreases level,
{
    assert(p_primary(t, p) == Ok::<(AstNode, int), ParseError>((number_node(x), p + 1)));
    assert(p_unary(t, p) == p_primary(t, p));
    if level > 2 {
        lemma_number_operand(t, p, x, (level - 1) as nat);
        assert(p_rest(t, number_node(x), p + 1, level) == Ok::<(AstNode, int), ParseError>((number_node(x), p + 1)));
    }
}

/// `a + b * c` (any additive operator, then any multiplicative one, between
/// three numbers) parses as `a + (b * c)`, and evaluates to
/// `a + (b * c)` in the caller's arithmetic.
pub proof fn lemma_factor_binds_tighter(
    t: Seq<Token>,
    x: u64,
    y: u64,
    z: u64,
    env: Map<Seq<char>, Value>,
    arith: spec_fn(ArithOp, u64, u64) -> u64,
)
    requires
        t.len() == 6,
        is_number_token(t[0], x),
        additive(t[1].ty),
        is_number_token(t[2], y),
        multiplicative(t[3].ty),
        is_number_token(t[4], z),
        t[5].ty == TokenType::Eof,
    ensures
        ({
            let tree = AstNode::Binary {
                left: Box::new(number_node(x)),
                operator: t[1],
                right: Box::new(
                    AstNode::Binary {
                        left: Box::new(number_node(y)),
                        operator: t[3],
                        right: Box::new(number_node(z)),
                    },
                ),
            };
            &&& p_expression(t, 0) == Ok::<(AstNode, int), ParseError>((tree, 5))
            &&& eval(tree, env, arith).result == Ok::<Value, ErrorModel>(
                Value::Number(arith(arith_op(t[1].ty), x, arith(arith_op(t[3].ty), y, z))),
            )
        }),
{
    let inner = AstNode::Binary {
        left: Box::new(number_node(y)),
        operator: t[3],
        right: Box::new(number_node(z)),
    };
    let tree = AstNode::Binary {
        left: Box::new(number_node(x)),
        operator: t[1],
        right: Box::new(inner),
    };
    lemma_number_operand(t, 0, x, 3);
    lemma_number_operand(t, 4, z, 2);
    lemma_number_operand(t, 2, y, 2);
    assert(p_rest(t, inner, 5, 3) == Ok::<(AstNode, int), ParseError>((inner, 5)));
    assert(p_rest(t, number_node(y), 3, 3) == Ok::<(AstNode, int), ParseError>((inner, 5)));
    assert(p_expr(t, 2, 3) == Ok::<(AstNode, int), ParseError>((inner, 5)));
    assert(p_rest(t, tree, 5, 4) == Ok::<(AstNode, int), ParseError>((tree, 5)));
    assert(p_rest(t, number_node(x), 1, 4) == Ok::<(AstNode, int), ParseError>((tree, 5)));
    assert(p_expr(t, 0, 4) == Ok::<(AstNode, int), ParseError>((tree, 5)));
    assert(p_rest(t, tree, 5, 5) == Ok::<(AstNode, int), ParseError>((tree, 5)));
    assert(p_expr(t, 0, 5) == Ok::<(AstNode, int), ParseError>((tree, 5)));
    assert(p_rest(t, tree, 5, 6) == Ok::<(AstNode, int), ParseError>((tree, 5)));
    assert(p_expr(t, 0, 6) == Ok::<(AstNode, int), ParseError>((tree, 5)));
    reveal_with_fuel(eval, 3);
}

/// Operators of one level associate to the left: `a - b - c` (any two
/// additive operators between three numbers) parses as `(a - b) - c`, and
/// evaluates to `(a - b) - c` in the caller's arithmetic.
pub proof fn lemma_left_associative(
    t: Seq<Token>,
    x: u64,
    y: u64,
    z: u64,
    env: Map<Seq<char>, Value>,
    arith: spec_fn(ArithOp, u64, u64) -> u64,
)
    requires
        t.len() == 6,
        is_number_token(t[0], x),
        additive(t[1].ty),
        is_number_token(t[2], y),
        additive(t[3].ty),
        is_number_token(t[4], z),
        t[5].ty == TokenType::Eof,
    ensures
        ({
            let tree = AstNode::Binary {
                left: Box::new(
                    AstNode::Binary {
                        left: Box::new(number_node(x)),
                        operator: t[1],
                        right: Box::new(number_node(y)),
                    },
                ),
                operator: t[3],
                right: Box::new(number_node(z)),
            };
            &&& p_expression(t, 0) == Ok::<(AstNode, int), ParseError>((tree, 5))
            &&& eval(tree, env, arith).result == Ok::<Value, ErrorModel>(
                Value::Number(arith(arith_op(t[3].ty), arith(arith_op(t[1].ty), x, y), z)),
            )
        }),
{
    let inner = AstNode::Binary {
        left: Box::new(number_node(x)),
        operator: t[1],
        right: Box::new(number_node(y)),
    };
    let tree = AstNode::Binary {
        left: Box::new(inner),
        operator: t[3],
        right: Box::new(number_node(z)),
    };
    lemma_number_operand(t, 0, x, 3);
    lemma_number_operand(t, 2, y, 3);
    lemma_number_operand(t, 4, z, 3);
    assert(p_rest(t, tree, 5, 4) == Ok::<(AstNode, int), ParseError>((tree, 5)));
    assert(p_rest(t, inner, 3, 4) == Ok::<(AstNode, int), ParseError>((tree, 5)));
    assert(p_rest(t, number_node(x), 1, 4) == Ok::<(AstNode, int), ParseError>((tree, 5)));
    assert(p_expr(t, 0, 4) == Ok::<(AstNode, int), ParseError>((tree, 5)));
    assert(p_rest(t, tree, 5, 5) == Ok::<(AstNode, int), ParseError>((tree, 5)));
    assert(p_expr(t, 0, 5) == Ok::<(AstNode, int), ParseError>((tree, 5)));
    assert(p_rest(t, tree, 5, 6) == Ok::<(AstNode, int), ParseError>((tree, 5)));
    assert(p_expr(t, 0, 6) == Ok::<(AstNode, int), ParseError>((tree, 5)));
    reveal_with_fuel(eval, 3);
}

} // verus!
