use rlox::ast::{AstNode, LiteralValue};
use rlox::ast_printer::AstPrinter;
use rlox::expressions::{Binary, Expression, Grouping, Literal, Printer, Unary};
use rlox::scanner::{Token, TokenType};

fn show_number(bits: u64) -> String {
    format!("{}", f64::from_bits(bits))
}

fn number(x: f64) -> Box<AstNode> {
    Box::new(AstNode::Literal { value: LiteralValue::Number(x.to_bits()) })
}

fn op(ty: TokenType, lexeme: &str) -> Token {
    Token::new(ty, lexeme.to_string(), None, 1)
}

#[test]
fn printer_parenthesize() {
    let parts = vec!["1".to_string(), "2".to_string()];
    assert_eq!(Printer::parenthesize("+".to_string(), &parts), "(+ 1 2)");
    assert_eq!(Printer::parenthesize("nil".to_string(), &Vec::new()), "(nil)");
}

#[test]
fn node_parenthesize() {
    let a = number(1.0);
    let b = AstNode::Literal { value: LiteralValue::String("s".to_string()) };
    assert_eq!(AstNode::parenthesize("f".to_string(), &vec![&*a, &b], &show_number), "(f 1 s)");
}

#[test]
fn expression_nodes() {
    let unary = Unary::new(op(TokenType::Minus, "-"), number(2.0));
    assert_eq!(unary.to_string(&show_number), "(- 2)");
    let binary = Binary::new(Box::new(unary.into_node()), op(TokenType::Star, "*"), number(4.5));
    assert_eq!(binary.to_string(&show_number), "(* (- 2) 4.5)");
    let grouping = Grouping::new(Box::new(binary.into_node()));
    assert_eq!(grouping.to_string(&show_number), "(* (- 2) 4.5)");
    let literal = Literal::new(LiteralValue::Nil);
    assert_eq!(literal.to_string(&show_number), "nil");
    assert!(matches!(grouping.into_node(), AstNode::Grouping { .. }));
    assert!(matches!(literal.into_node(), AstNode::Literal { value: LiteralValue::Nil }));
}

#[test]
fn ast_printer_prints_statements() {
    let node = AstNode::StmtPrint {
        value: Box::new(AstNode::Binary {
            left: number(1.0),
            operator: op(TokenType::Plus, "+"),
            right: number(2.0),
        }),
    };
    assert_eq!(AstPrinter::print(Box::new(node), &show_number), "print (+ 1 2)");
}
