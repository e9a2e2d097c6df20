use vstd::prelude::*;

use crate::ast::{AstNode, LiteralValue};
use crate::scanner::{Token, TokenType, TokenValue};

verus! {

/// What a parse error complains of.
#[derive(Debug, Clone, Copy, PartialEq, Eq, Structural)]
pub enum ParseErrorKind {
    /// No expression can start at the token.
    ExpectExpression,
    /// A number or string token without the payload of its kind.
    InvalidLiteral,
    /// A parenthesized expression without its `)`.
    ExpectRightParen,
    /// `var` not followed by a name.
    ExpectVariableName,
    /// A declaration without its closing `;`.
    ExpectSemicolonAfterDeclaration,
    /// A print or expression statement without its closing `;`.
    ExpectSemicolonAfterValue,
}

/// A parse error and the token it was found at.
#[derive(Debug, Clone)]
pub struct ParseError {
    pub token: Token,
    pub kind: ParseErrorKind,
}

/// The message of a parse error.
pub open spec fn parse_message(kind: ParseErrorKind) -> Seq<char> {
    match kind {
        ParseErrorKind::ExpectExpression => "Expect expression."@,
        ParseErrorKind::InvalidLiteral => "Literal without a value."@,
        ParseErrorKind::ExpectRightParen => "Expect ')' after expression."@,
        ParseErrorKind::ExpectVariableName => "Expect variable name."@,
        ParseErrorKind::ExpectSemicolonAfterDeclaration => "Expect ';' after variable declaration."@,
        ParseErrorKind::ExpectSemicolonAfterValue => "Expect ';' after value."@,
    }
}

impl ParseErrorKind {
    pub fn message(&self) -> (r: &'static str)
        ensures
            r@ == parse_message(*self),
    {
        match self {
            ParseErrorKind::ExpectExpression => "Expect expression.",
            ParseErrorKind::InvalidLiteral => "Literal without a value.",
            ParseErrorKind::ExpectRightParen => "Expect ')' after expression.",
            ParseErrorKind::ExpectVariableName => "Expect variable name.",
            ParseErrorKind::ExpectSemicolonAfterDeclaration => "Expect ';' after variable declaration.",
            ParseErrorKind::ExpectSemicolonAfterValue => "Expect ';' after value.",
        }
    }
}

/// Where a parse error stands: at the end of input, or at a lexeme.
pub open spec fn where_text(token: Token) -> Seq<char> {
    if token.ty == TokenType::Eof {
        " at end"@
    } else {
        " at '"@ + token.lexeme@ + "'"@
    }
}

impl ParseError {
    /// The diagnostic line for this error.
    pub fn report(&self) -> (r: String)
        ensures
            r@ == crate::report_text(
                self.token.line as nat,
                where_text(self.token),
                parse_message(self.kind),
            ),
    {
        let where_ = if self.token.ty == TokenType::Eof {
            String::from_str(" at end")
        } else {
            String::from_str(" at '").concat(self.token.lexeme.as_str()).concat("'")
        };
        crate::report(self.token.line, where_.as_str(), self.kind.message())
    }
}

/// A token sequence the parser accepts: it ends with the end-of-input token.
pub open spec fn tokens_wf(t: Seq<Token>) -> bool {
    t.len() > 0 && t.last().ty == TokenType::Eof
}

/// The kind of the token at `p`; past the end, the end-of-input kind.
pub open spec fn ty_at(t: Seq<Token>, p: int) -> TokenType {
    if 0 <= p < t.len() {
        t[p].ty
    } else {
        TokenType::Eof
    }
}

/// The binary operators of each precedence level: 6 equality, 5 comparison,
/// 4 term, 3 factor.
pub open spec fn level_op(level: nat, ty: TokenType) -> bool {
    if level == 6 {
        ty == TokenType::BangEqual || ty == TokenType::EqualEqual
    } else if level == 5 {
        ty == TokenType::Greater || ty == TokenType::GreaterEqual || ty == TokenType::Less || ty
            == TokenType::LessEqual
    } else if level == 4 {
        ty == TokenType::Minus || ty == TokenType::Plus
    } else if level == 3 {
        ty == TokenType::Slash || ty == TokenType::Star
    } else {
        false
    }
}

/// A parsed node and the position after it, or the error met first.
pub type Parsed = Result<(AstNode, int), ParseError>;

pub open spec fn fail(t: Seq<Token>, p: int, kind: ParseErrorKind) -> Parsed {
    Err(ParseError { token: t[p], kind })
}

/// The literal node a keyword, number or string token stands for.
pub open spec fn literal_node(tk: Token) -> Option<AstNode> {
    match tk.ty {
        TokenType::False => Some(AstNode::Literal { value: LiteralValue::False }),
        TokenType::True => Some(AstNode::Literal { value: LiteralValue::True }),
        TokenType::Nil => Some(AstNode::Literal { value: LiteralValue::Nil }),
        TokenType::Number => match tk.literal {
            Some(TokenValue::NumberLiteral(n)) => Some(AstNode::Literal { value: LiteralValue::Number(n) }),
            _ => None,
        },
        TokenType::String => match tk.literal {
            Some(TokenValue::StringLiteral(s)) => Some(AstNode::Literal { value: LiteralValue::String(s) }),
            _ => None,
        },
        _ => None,
    }
}

pub open spec fn is_literal_kind(ty: TokenType) -> bool {
    ty == TokenType::False || ty == TokenType::True || ty == TokenType::Nil || ty
        == TokenType::Number || ty == TokenType::String
}

/// An expression of precedence `level` or tighter, from `p`; levels 2 and
/// below are the prefix operators and primaries.
pub open spec fn p_expr(t: Seq<Token>, p: int, level: nat) -> Parsed
    decreases t.len() - p, level + 2,
{
    if level <= 2 {
        p_unary(t, p)
    } else {
        match p_expr(t, p, (level - 1) as nat) {
            Ok((e, q)) => if p < q <= t.len() {
                p_rest(t, e, q, level)
            } else {
                Ok((e, q))
            },
            Err(x) => Err(x),
        }
    }
}

/// Folds `left op right` to the left while the token at `q` is an operator
/// of `level`.
pub open spec fn p_rest(t: Seq<Token>, left: AstNode, q: int, level: nat) -> Parsed
    decreases t.len() - q, level + 2,
{
    if 0 <= q < t.len() && level >= 3 && level_op(level, ty_at(t, q)) {
        match p_expr(t, q + 1, (level - 1) as nat) {
            Ok((right, q2)) => {
                let node = AstNode::Binary {
                    left: Box::new(left),
                    operator: t[q],
                    right: Box::new(right),
                };
                if q < q2 <= t.len() {
                    p_rest(t, node, q2, level)
                } else {
                    Ok((node, q2))
                }
            },
            Err(x) => Err(x),
        }
    } else {
        Ok((left, q))
    }
}

/// A chain of prefix `!` and `-`, then a primary.
pub open spec fn p_unary(t: Seq<Token>, p: int) -> Parsed
    decreases t.len() - p, 1nat,
{
    if 0 <= p < t.len() && (ty_at(t, p) == TokenType::Bang || ty_at(t, p) == TokenType::Minus) {
        match p_unary(t, p + 1) {
            Ok((right, q)) => Ok((AstNode::Unary { operator: t[p], right: Box::new(right) }, q)),
            Err(x) => Err(x),
        }
    } else {
        p_primary(t, p)
    }
}

/// A literal, a variable reference, or a parenthesized expression.
pub open spec fn p_primary(t: Seq<Token>, p: int) -> Parsed
    decreases t.len() - p, 0nat,
{
    let ty = ty_at(t, p);
    if is_literal_kind(ty) {
        match literal_node(t[p]) {
            Some(n) => Ok((n, p + 1)),
            None => fail(t, p, ParseErrorKind::InvalidLiteral),
        }
    } else if ty == TokenType::Ident {
        Ok((AstNode::VariableExpression { value: t[p].lexeme }, p + 1))
    } else if ty == TokenType::LeftParen && 0 <= p < t.len() {
        match p_expr(t, p + 1, 6) {
            Ok((e, q)) => if ty_at(t, q) == TokenType::RightParen {
                Ok((AstNode::Grouping { node: Box::new(e) }, q + 1))
            } else {
                fail(t, q, ParseErrorKind::ExpectRightParen)
            },
            Err(x) => Err(x),
        }
    } else {
        fail(t, p, ParseErrorKind::ExpectExpression)
    }
}

/// An expression, at the loosest level.
pub open spec fn p_expression(t: Seq<Token>, p: int) -> Parsed {
    p_expr(t, p, 6)
}

/// A statement whose expression was parsed as `e`, ending at `q`, closed by `;`.
pub open spec fn p_close(t: Seq<Token>, node: AstNode, q: int, kind: ParseErrorKind) -> Parsed {
    if ty_at(t, q) == TokenType::Semicolon {
        Ok((node, q + 1))
    } else {
        fail(t, q, kind)
    }
}

/// `"var" name ("=" expression)? ";" | "print" expression ";" | expression ";"`.
pub open spec fn p_declaration(t: Seq<Token>, p: int) -> Parsed {
    if ty_at(t, p) == TokenType::Var {
        let q = p + 1;
        if ty_at(t, q) != TokenType::Ident {
            fail(t, q, ParseErrorKind::ExpectVariableName)
        } else if ty_at(t, q + 1) == TokenType::Equal {
            match p_expression(t, q + 2) {
                Ok((e, r)) => p_close(
                    t,
                    AstNode::StmtVariable { name: t[q].lexeme, initializer: Some(Box::new(e)) },
                    r,
                    ParseErrorKind::ExpectSemicolonAfterDeclaration,
                ),
                Err(x) => Err(x),
            }
        } else {
            p_close(
                t,
                AstNode::StmtVariable { name: t[q].lexeme, initializer: None },
                q + 1,
                ParseErrorKind::ExpectSemicolonAfterDeclaration,
            )
        }
    } else if ty_at(t, p) == TokenType::Print {
        match p_expression(t, p + 1) {
            Ok((e, r)) => p_close(
                t,
                AstNode::StmtPrint { value: Box::new(e) },
                r,
                ParseErrorKind::ExpectSemicolonAfterValue,
            ),
            Err(x) => Err(x),
        }
    } else {
        match p_expression(t, p) {
            Ok((e, r)) => p_close(
                t,
                AstNode::StmtExpression { value: Box::new(e) },
                r,
                ParseErrorKind::ExpectSemicolonAfterValue,
            ),
            Err(x) => Err(x),
        }
    }
}

/// The statements from `p` to the end-of-input token, or the first error.
pub open spec fn p_program(t: Seq<Token>, p: int) -> Result<Seq<AstNode>, ParseError>
    decreases t.len() - p,
{
    if 0 <= p < t.len() && ty_at(t, p) != TokenType::Eof {
        match p_declaration(t, p) {
            Ok((s, q)) => if p < q <= t.len() {
                match p_program(t, q) {
                    Ok(rest) => Ok(seq![s] + rest),
                    Err(x) => Err(x),
                }
            } else {
                Ok(seq![s])
            },
            Err(x) => Err(x),
        }
    } else {
        Ok(Seq::empty())
    }
}


pub open spec fn parsed(r: Result<(AstNode, usize), ParseError>) -> Parsed {
    match r {
        Ok((n, q)) => Ok((n, q as int)),
        Err(x) => Err(x),
    }
}

/// On success the position moved forward and stayed inside the tokens.
pub open spec fn advanced(r: Result<(AstNode, usize), ParseError>, p: int, len: int) -> bool {
    match r {
        Ok((_, q)) => p < q < len,
        Err(_) => true,
    }
}

fn kind_at(tokens: &Vec<Token>, p: usize) -> (r: TokenType)
    ensures
        r == ty_at(tokens@, p as int),
{
    if p < tokens.len() {
        tokens[p].ty
    } else {
        TokenType::Eof
    }
}

fn is_level_op(level: usize, ty: TokenType) -> (r: bool)
    ensures
        r == level_op(level as nat, ty),
{
    if level == 6 {
        ty == TokenType::BangEqual || ty == TokenType::EqualEqual
    } else if level == 5 {
        ty == TokenType::Greater || ty == TokenType::GreaterEqual || ty == TokenType::Less || ty
            == TokenType::LessEqual
    } else if level == 4 {
        ty == TokenType::Minus || ty == TokenType::Plus
    } else if level == 3 {
        ty == TokenType::Slash || ty == TokenType::Star
    } else {
        false
    }
}

fn error_at(tokens: &Vec<Token>, p: usize, kind: ParseErrorKind) -> (r: ParseError)
    requires
        p < tokens.len(),
    ensures
        r == (ParseError { token: tokens@[p as int], kind }),
{
    ParseError { token: tokens[p].duplicate(), kind }
}

fn literal_of(tk: &Token) -> (r: Option<AstNode>)
    ensures
        r == literal_node(*tk),
{
    match tk.ty {
        TokenType::False => Some(AstNode::Literal { value: LiteralValue::False }),
        TokenType::True => Some(AstNode::Literal { value: LiteralValue::True }),
        TokenType::Nil => Some(AstNode::Literal { value: LiteralValue::Nil }),
        TokenType::Number => match &tk.literal {
            Some(TokenValue::NumberLiteral(n)) => Some(AstNode::Literal { value: LiteralValue::Number(*n) }),
            _ => None,
        },
        TokenType::String => match &tk.literal {
            Some(TokenValue::StringLiteral(s)) => Some(
                AstNode::Literal { value: LiteralValue::String(s.clone()) },
            ),
            _ => None,
        },
        _ => None,
    }
}

fn expr(tokens: &Vec<Token>, p: usize, level: usize) -> (r: Result<(AstNode, usize), ParseError>)
    requires
        tokens_wf(tokens@),
        p < tokens.len(),
        level <= 6,
    ensures
        parsed(r) == p_expr(tokens@, p as int, level as nat),
        advanced(r, p as int, tokens.len() as int),
    decreases tokens.len() - p, level + 2,
{
    if level <= 2 {
        return unary(tokens, p);
    }
    let (mut e, mut q) = match expr(tokens, p, level - 1) {
        Ok(x) => x,
        Err(x) => {
            return Err(x);
        },
    };
    let ghost t = tokens@;
    let ghost goal = p_rest(t, e, q as int, level as nat);
    assert(goal == p_expr(t, p as int, level as nat));
    while is_level_op(level, kind_at(tokens, q))
        invariant
            tokens_wf(t),
            t == tokens@,
            3 <= level <= 6,
            p < q < tokens.len(),
            p_rest(t, e, q as int, level as nat) == goal,
            goal == p_expr(t, p as int, level as nat),
        decreases tokens.len() - q,
    {
        let operator = tokens[q].duplicate();
        match expr(tokens, q + 1, level - 1) {
            Ok((right, q2)) => {
                e = AstNode::Binary { left: Box::new(e), operator, right: Box::new(right) };
                q = q2;
            },
            Err(x) => {
                return Err(x);
            },
        }
    }
    Ok((e, q))
}

fn unary(tokens: &Vec<Token>, p: usize) -> (r: Result<(AstNode, usize), ParseError>)
    requires
        tokens_wf(tokens@),
        p < tokens.len(),
    ensures
        parsed(r) == p_unary(tokens@, p as int),
        advanced(r, p as int, tokens.len() as int),
    decreases tokens.len() - p, 1nat,
{
    let ty = tokens[p].ty;
    if ty == TokenType::Bang || ty == TokenType::Minus {
        let operator = tokens[p].duplicate();
        match unary(tokens, p + 1) {
            Ok((right, q)) => Ok((AstNode::Unary { operator, right: Box::new(right) }, q)),
            Err(x) => Err(x),
        }
    } else {
        primary(tokens, p)
    }
}

fn primary(tokens: &Vec<Token>, p: usize) -> (r: Result<(AstNode, usize), ParseError>)
    requires
        tokens_wf(tokens@),
        p < tokens.len(),
    ensures
        parsed(r) == p_primary(tokens@, p as int),
        advanced(r, p as int, tokens.len() as int),
    decreases tokens.len() - p, 0nat,
{
    let ty = tokens[p].ty;
    if ty == TokenType::False || ty == TokenType::True || ty == TokenType::Nil || ty
        == TokenType::Number || ty == TokenType::String {
        match literal_of(&tokens[p]) {
            Some(n) => Ok((n, p + 1)),
            None => Err(error_at(tokens, p, ParseErrorKind::InvalidLiteral)),
        }
    } else if ty == TokenType::Ident {
        Ok((AstNode::VariableExpression { value: tokens[p].lexeme.clone() }, p + 1))
    } else if ty == TokenType::LeftParen {
        match expr(tokens, p + 1, 6) {
            Ok((e, q)) => {
                if tokens[q].ty == TokenType::RightParen {
                    Ok((AstNode::Grouping { node: Box::new(e) }, q + 1))
                } else {
                    Err(error_at(tokens, q, ParseErrorKind::ExpectRightParen))
                }
            },
            Err(x) => Err(x),
        }
    } else {
        Err(error_at(tokens, p, ParseErrorKind::ExpectExpression))
    }
}


fn close(tokens: &Vec<Token>, node: AstNode, q: usize, kind: ParseErrorKind) -> (r: Result<
    (AstNode, usize),
    ParseError,
>)
    requires
        tokens_wf(tokens@),
        q < tokens.len(),
    ensures
        parsed(r) == p_close(tokens@, node, q as int, kind),
        advanced(r, q as int - 1, tokens.len() as int),
{
    if tokens[q].ty == TokenType::Semicolon {
        Ok((node, q + 1))
    } else {
        Err(error_at(tokens, q, kind))
    }
}

fn declaration(tokens: &Vec<Token>, p: usize) -> (r: Result<(AstNode, usize), ParseError>)
    requires
        tokens_wf(tokens@),
        p < tokens.len(),
    ensures
        parsed(r) == p_declaration(tokens@, p as int),
        advanced(r, p as int, tokens.len() as int),
{
    let ty = tokens[p].ty;
    if ty == TokenType::Var {
        let q = p + 1;
        if tokens[q].ty != TokenType::Ident {
            return Err(error_at(tokens, q, ParseErrorKind::ExpectVariableName));
        }
        let name = tokens[q].lexeme.clone();
        if tokens[q + 1].ty == TokenType::Equal {
            match expr(tokens, q + 2, 6) {
                Ok((e, r)) => close(
                    tokens,
                    AstNode::StmtVariable { name, initializer: Some(Box::new(e)) },
                    r,
                    ParseErrorKind::ExpectSemicolonAfterDeclaration,
                ),
                Err(x) => Err(x),
            }
        } else {
            close(
                tokens,
                AstNode::StmtVariable { name, initializer: None },
                q + 1,
                ParseErrorKind::ExpectSemicolonAfterDeclaration,
            )
        }
    } else if ty == TokenType::Print {
        match expr(tokens, p + 1, 6) {
            Ok((e, r)) => close(
                tokens,
                AstNode::StmtPrint { value: Box::new(e) },
                r,
                ParseErrorKind::ExpectSemicolonAfterValue,
            ),
            Err(x) => Err(x),
        }
    } else {
        match expr(tokens, p, 6) {
            Ok((e, r)) => close(
                tokens,
                AstNode::StmtExpression { value: Box::new(e) },
                r,
                ParseErrorKind::ExpectSemicolonAfterValue,
            ),
            Err(x) => Err(x),
        }
    }
}

/// Builds statement trees from a token sequence by recursive descent.
pub struct Parser {
    tokens: Vec<Token>,
    current: usize,
}

impl Parser {
    /// The tokens being parsed.
    pub closed spec fn tokens(&self) -> Seq<Token> {
        self.tokens@
    }

    /// The index of the next token to parse.
    pub closed spec fn position(&self) -> int {
        self.current as int
    }

    pub closed spec fn wf(&self) -> bool {
        tokens_wf(self.tokens@) && self.current < self.tokens.len()
    }

    /// A parser at the first of `tokens`, which must end with the
    /// end-of-input token.
    pub fn new(tokens: Vec<Token>) -> (r: Parser)
        requires
            tokens_wf(tokens@),
        ensures
            r.wf(),
            r.tokens() == tokens@,
            r.position() == 0,
    {
        Parser { current: 0, tokens }
    }

    /// Parses declarations and statements up to the end-of-input token. Stops
    /// at the first parse error and returns it.
    pub fn parse(&mut self) -> (r: Result<Vec<AstNode>, ParseError>)
        requires
            old(self).wf(),
        ensures
            final(self).wf(),
            final(self).tokens() == old(self).tokens(),
            match r {
                Ok(v) => p_program(old(self).tokens(), old(self).position()) == Ok::<
                    Seq<AstNode>,
                    ParseError,
                >(v@),
                Err(x) => p_program(old(self).tokens(), old(self).position()) == Err::<
                    Seq<AstNode>,
                    ParseError,
                >(x),
            },
    {
        let ghost t = self.tokens@;
        let ghost goal = p_program(t, self.current as int);
        let mut statements: Vec<AstNode> = Vec::new();
        while self.tokens[self.current].ty != TokenType::Eof
            invariant
                self.wf(),
                self.tokens@ == t,
                t == old(self).tokens@,
                goal == p_program(old(self).tokens(), old(self).position()),
                goal == match p_program(t, self.current as int) {
                    Ok(rest) => Ok(statements@ + rest),
                    Err(x) => Err(x),
                },
            decreases self.tokens.len() - self.current,
        {
            match declaration(&self.tokens, self.current) {
                Ok((s, q)) => {
                    let ghost before = statements@;
                    statements.push(s);
                    self.current = q;
                    proof {
                        match p_program(t, q as int) {
                            Ok(rest) => {
                                assert(before + (seq![s] + rest) =~= statements@ + rest);
                            },
                            Err(x) => {},
                        }
                    }
                },
                Err(x) => {
                    return Err(x);
                },
            }
        }
        assert(statements@ + Seq::<AstNode>::empty() =~= statements@);
        Ok(statements)
    }
}

} // verus!
