use rlox::ast::AstNode;
use rlox::expressions::Expression;
use rlox::parser::{ParseError, ParseErrorKind, Parser};
use rlox::scanner::{Scanner, TokenType};

fn parse_number(text: String) -> u64 {
    text.parse::<f64>().unwrap().to_bits()
}

fn show_number(bits: u64) -> String {
    format!("{}", f64::from_bits(bits))
}

fn parse_source(source: &str) -> Result<Vec<AstNode>, ParseError> {
    let mut scanner = Scanner::new(source.to_string());
    scanner.scan_tokens(&parse_number);
    let mut parser = Parser::new(scanner.into_tokens());
    parser.parse()
}

fn texts(source: &str) -> Vec<String> {
    parse_source(source).unwrap().iter().map(|n| n.to_string(&show_number)).collect()
}

#[test]
fn factor_binds_tighter_than_term() {
    assert_eq!(texts("1 + 2 * 3;"), vec!["stmt expr (+ 1 (* 2 3))".to_string()]);
}

#[test]
fn parentheses_override_precedence() {
    let nodes = parse_source("(1 + 2) * 3;").unwrap();
    match &nodes[0] {
        AstNode::StmtExpression { value } => match &**value {
            AstNode::Binary { left, operator, .. } => {
                assert_eq!(operator.ty, TokenType::Star);
                assert!(matches!(**left, AstNode::Grouping { .. }));
            }
            _ => panic!("expected a binary node"),
        },
        _ => panic!("expected an expression statement"),
    }
    assert_eq!(texts("(1 + 2) * 3;"), vec!["stmt expr (* (+ 1 2) 3)".to_string()]);
}

#[test]
fn binary_levels_are_left_associative() {
    assert_eq!(texts("1 - 2 - 3;"), vec!["stmt expr (- (- 1 2) 3)".to_string()]);
    assert_eq!(
        texts("1 < 2 == 3 >= 4;"),
        vec!["stmt expr (== (< 1 2) (>= 3 4))".to_string()]
    );
}

#[test]
fn unary_is_right_recursive() {
    assert_eq!(texts("!!true;"), vec!["stmt expr (! (! true))".to_string()]);
    assert_eq!(texts("-2 * 3;"), vec!["stmt expr (* (- 2) 3)".to_string()]);
}

#[test]
fn statements_in_order() {
    assert_eq!(
        texts("var a = \"s\"; var b; print a; a;"),
        vec![
            "var a = s".to_string(),
            "var b".to_string(),
            "print var expression a".to_string(),
            "stmt expr var expression a".to_string(),
        ]
    );
}

#[test]
fn incomplete_expression_is_a_parse_error() {
    let e = parse_source("1 +").unwrap_err();
    assert_eq!(e.kind, ParseErrorKind::ExpectExpression);
    assert_eq!(e.token.ty, TokenType::Eof);
    assert_eq!(e.report(), "[line 0] Error at end: Expect expression.");
}

#[test]
fn missing_right_paren() {
    let e = parse_source("(1 + 2;").unwrap_err();
    assert_eq!(e.kind, ParseErrorKind::ExpectRightParen);
    assert_eq!(e.report(), "[line 1] Error at ';': Expect ')' after expression.");
}

#[test]
fn missing_semicolons() {
    assert_eq!(
        parse_source("print 1").unwrap_err().kind,
        ParseErrorKind::ExpectSemicolonAfterValue
    );
    assert_eq!(parse_source("1 2;").unwrap_err().kind, ParseErrorKind::ExpectSemicolonAfterValue);
    assert_eq!(
        parse_source("var x = 1").unwrap_err().kind,
        ParseErrorKind::ExpectSemicolonAfterDeclaration
    );
}

#[test]
fn declaration_needs_a_name() {
    let e = parse_source("var = 1;").unwrap_err();
    assert_eq!(e.kind, ParseErrorKind::ExpectVariableName);
    assert_eq!(e.token.ty, TokenType::Equal);
}

#[test]
fn token_that_starts_no_expression() {
    let e = parse_source("print );").unwrap_err();
    assert_eq!(e.kind, ParseErrorKind::ExpectExpression);
    assert_eq!(e.token.lexeme, ")");
}

#[test]
fn empty_program_parses_to_nothing() {
    assert!(parse_source("").unwrap().is_empty());
    assert!(parse_source("// only a comment").unwrap().is_empty());
}
