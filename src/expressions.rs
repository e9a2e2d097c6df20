use vstd::prelude::*;

use crate::ast::{node_text, shown, shows_consistently, AstNode, LiteralValue};
use crate::scanner::Token;

verus! {

/// A syntax-tree value that can render itself as text. Numbers are rendered
/// by the `show` closure, which is handed their bit patterns.
pub trait Expression {
    spec fn text(&self, num: spec_fn(u64) -> Seq<char>) -> Seq<char>;

    fn to_string<S: Fn(u64) -> String>(&self, show: &S) -> (r: String)
        requires
            shows_consistently(show),
        ensures
            r@ == self.text(shown(show)),
    ;
}

/// `parts` joined, each one after a space.
pub open spec fn spaced(parts: Seq<Seq<char>>) -> Seq<char>
    decreases parts.len(),
{
    if parts.len() == 0 {
        Seq::empty()
    } else {
        spaced(parts.drop_last()) + " "@ + parts.last()
    }
}

/// `(name part part ...)`.
pub open spec fn paren_text(name: Seq<char>, parts: Seq<Seq<char>>) -> Seq<char> {
    "("@ + name + spaced(parts) + ")"@
}

pub open spec fn texts(v: Seq<String>) -> Seq<Seq<char>> {
    v.map_values(|s: String| s@)
}

/// Renders nodes in prefix form.
pub struct Printer;

impl Printer {
    /// `(name p1 p2 ...)` for the rendered parts `parts`.
    pub fn parenthesize(name: String, parts: &Vec<String>) -> (r: String)
        ensures
            r@ == paren_text(name@, texts(parts@)),
    {
        let mut builder = String::from_str("(").concat(name.as_str());
        let mut i: usize = 0;
        while i < parts.len()
            invariant
                i <= parts.len(),
                builder@ == "("@ + name@ + spaced(texts(parts@.subrange(0, i as int))),
            decreases parts.len() - i,
        {
            let ghost before = builder@;
            builder = builder.concat(" ").concat(parts[i].as_str());
            assert(texts(parts@.subrange(0, i + 1)).drop_last() =~= texts(
                parts@.subrange(0, i as int),
            ));
            assert(builder@ =~= "("@ + name@ + spaced(texts(parts@.subrange(0, i + 1))));
            i += 1;
        }
        assert(parts@.subrange(0, parts.len() as int) =~= parts@);
        builder.concat(")")
    }
}

/// A parenthesized expression.
pub struct Grouping {
    pub expression: Box<AstNode>,
}

impl Grouping {
    pub fn new(expression: Box<AstNode>) -> (r: Grouping)
        ensures
            r.expression == expression,
    {
        Grouping { expression }
    }

    /// The tree node this grouping stands for.
    pub fn into_node(self) -> (r: AstNode)
        ensures
            r == (AstNode::Grouping { node: self.expression }),
    {
        AstNode::Grouping { node: self.expression }
    }
}

impl Expression for Grouping {
    open spec fn text(&self, num: spec_fn(u64) -> Seq<char>) -> Seq<char> {
        node_text(AstNode::Grouping { node: self.expression }, num)
    }

    fn to_string<S: Fn(u64) -> String>(&self, show: &S) -> (r: String) {
        self.expression.to_string(show)
    }
}

/// An infix operator applied to two operands.
pub struct Binary {
    pub left: Box<AstNode>,
    pub operator: Token,
    pub right: Box<AstNode>,
}

impl Binary {
    pub fn new(left: Box<AstNode>, operator: Token, right: Box<AstNode>) -> (r: Binary)
        ensures
            r.left == left,
            r.operator == operator,
            r.right == right,
    {
        Binary { left, operator, right }
    }

    /// The tree node this operation stands for.
    pub fn into_node(self) -> (r: AstNode)
        ensures
            r == (AstNode::Binary { left: self.left, operator: self.operator, right: self.right }),
    {
        AstNode::Binary { left: self.left, operator: self.operator, right: self.right }
    }
}

impl Expression for Binary {
    open spec fn text(&self, num: spec_fn(u64) -> Seq<char>) -> Seq<char> {
        paren_text(self.operator.lexeme@, seq![self.left.text(num), self.right.text(num)])
    }

    fn to_string<S: Fn(u64) -> String>(&self, show: &S) -> (r: String) {
        let mut parts: Vec<String> = Vec::new();
        parts.push(self.left.to_string(show));
        parts.push(self.right.to_string(show));
        assert(texts(parts@) =~= seq![self.left.text(shown(show)), self.right.text(shown(show))]);
        Printer::parenthesize(self.operator.lexeme.clone(), &parts)
    }
}

/// A prefix operator applied to an operand.
pub struct Unary {
    pub operator: Token,
    pub right: Box<AstNode>,
}

impl Unary {
    pub fn new(operator: Token, right: Box<AstNode>) -> (r: Unary)
        ensures
            r.operator == operator,
            r.right == right,
    {
        Unary { operator, right }
    }

    /// The tree node this operation stands for.
    pub fn into_node(self) -> (r: AstNode)
        ensures
            r == (AstNode::Unary { operator: self.operator, right: self.right }),
    {
        AstNode::Unary { operator: self.operator, right: self.right }
    }
}

impl Expression for Unary {
    open spec fn text(&self, num: spec_fn(u64) -> Seq<char>) -> Seq<char> {
        paren_text(self.operator.lexeme@, seq![self.right.text(num)])
    }

    fn to_string<S: Fn(u64) -> String>(&self, show: &S) -> (r: String) {
        let mut parts: Vec<String> = Vec::new();
        parts.push(self.right.to_string(show));
        assert(texts(parts@) =~= seq![self.right.text(shown(show))]);
        Printer::parenthesize(self.operator.lexeme.clone(), &parts)
    }
}

/// A literal value.
pub struct Literal {
    pub value: LiteralValue,
}

impl Literal {
    pub fn new(value: LiteralValue) -> (r: Literal)
        ensures
            r.value == value,
    {
        Literal { value }
    }

    /// The tree node this literal stands for.
    pub fn into_node(self) -> (r: AstNode)
        ensures
            r == (AstNode::Literal { value: self.value }),
    {
        AstNode::Literal { value: self.value }
    }
}

impl Expression for Literal {
    open spec fn text(&self, num: spec_fn(u64) -> Seq<char>) -> Seq<char> {
        node_text(AstNode::Literal { value: self.value }, num)
    }

    fn to_string<S: Fn(u64) -> String>(&self, show: &S) -> (r: String) {
        crate::ast::stringify_value(&self.value, show)
    }
}

} // verus!
