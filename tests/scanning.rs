use rlox::scanner::{ScanError, ScanErrorKind, Scanner, Token, TokenType, TokenValue};

fn parse_number(text: String) -> u64 {
    text.parse::<f64>().unwrap().to_bits()
}

fn tokens_of(source: &str) -> Vec<Token> {
    let mut scanner = Scanner::new(source.to_string());
    scanner.scan_tokens(&parse_number).clone()
}

fn kinds_of(source: &str) -> Vec<TokenType> {
    tokens_of(source).iter().map(|t| t.ty).collect()
}

fn errors_of(source: &str) -> Vec<ScanError> {
    let mut scanner = Scanner::new(source.to_string());
    scanner.scan_tokens(&parse_number);
    scanner.errors().clone()
}

#[test]
fn tokenize_var_declaration() {
    let tokens = tokens_of("var x = 10;");
    let expected = vec![
        Token::new(TokenType::Var, "var".to_string(), None, 1),
        Token::new(
            TokenType::Ident,
            "x".to_string(),
            Some(TokenValue::Identifier("x".to_string())),
            1,
        ),
        Token::new(TokenType::Equal, "=".to_string(), None, 1),
        Token::new(
            TokenType::Number,
            "10".to_string(),
            Some(TokenValue::NumberLiteral(10.0f64.to_bits())),
            1,
        ),
        Token::new(TokenType::Semicolon, ";".to_string(), None, 1),
        Token::new(TokenType::Eof, String::new(), None, 0),
    ];
    assert_eq!(tokens, expected);
    assert!(errors_of("var x = 10;").is_empty());
}

#[test]
fn empty_source_gives_only_the_sentinel() {
    assert_eq!(tokens_of(""), vec![Token::new(TokenType::Eof, String::new(), None, 0)]);
}

#[test]
fn single_character_tokens() {
    assert_eq!(
        kinds_of("(){},.-+;*/"),
        vec![
            TokenType::LeftParen,
            TokenType::RightParen,
            TokenType::LeftBrace,
            TokenType::RightBrace,
            TokenType::Comma,
            TokenType::Dot,
            TokenType::Minus,
            TokenType::Plus,
            TokenType::Semicolon,
            TokenType::Star,
            TokenType::Slash,
            TokenType::Eof,
        ]
    );
}

#[test]
fn two_character_operators_use_maximal_munch() {
    assert_eq!(
        kinds_of("! != = == < <= > >="),
        vec![
            TokenType::Bang,
            TokenType::BangEqual,
            TokenType::Equal,
            TokenType::EqualEqual,
            TokenType::Less,
            TokenType::LessEqual,
            TokenType::Greater,
            TokenType::GreaterEqual,
            TokenType::Eof,
        ]
    );
    let tokens = tokens_of("!=");
    assert_eq!(tokens[0].lexeme, "!=");
}

#[test]
fn comment_runs_to_end_of_line() {
    let tokens = tokens_of("1 // two 2\n3");
    assert_eq!(tokens.len(), 3);
    assert_eq!(tokens[0].lexeme, "1");
    assert_eq!(tokens[0].line, 1);
    assert_eq!(tokens[1].lexeme, "3");
    assert_eq!(tokens[1].line, 2);
}

#[test]
fn whitespace_and_newlines_count_lines() {
    let tokens = tokens_of(" \t\r\n\n;");
    assert_eq!(tokens[0].ty, TokenType::Semicolon);
    assert_eq!(tokens[0].line, 3);
}

#[test]
fn string_literal_payload_and_lines() {
    let tokens = tokens_of("\"a\nb\" ;");
    assert_eq!(tokens[0].ty, TokenType::String);
    assert_eq!(tokens[0].lexeme, "\"a\nb\"");
    assert_eq!(tokens[0].literal, Some(TokenValue::StringLiteral("a\nb".to_string())));
    assert_eq!(tokens[0].line, 2);
    assert_eq!(tokens[1].line, 2);
}

#[test]
fn unterminated_string_is_reported_at_its_opening_line() {
    let source = "1\n\"abc\ndef";
    assert_eq!(kinds_of(source), vec![TokenType::Number, TokenType::Eof]);
    assert_eq!(
        errors_of(source),
        vec![ScanError { line: 2, kind: ScanErrorKind::UnterminatedString }]
    );
}

#[test]
fn unexpected_character_is_reported_and_scanning_goes_on() {
    assert_eq!(kinds_of("@ 1 # 2"), vec![TokenType::Number, TokenType::Number, TokenType::Eof]);
    assert_eq!(
        errors_of("@ 1\n#"),
        vec![
            ScanError { line: 1, kind: ScanErrorKind::UnexpectedCharacter },
            ScanError { line: 2, kind: ScanErrorKind::UnexpectedCharacter },
        ]
    );
}

#[test]
fn number_literals() {
    let tokens = tokens_of("12.5 7. .5");
    assert_eq!(tokens[0].literal, Some(TokenValue::NumberLiteral(12.5f64.to_bits())));
    assert_eq!(tokens[1].literal, Some(TokenValue::NumberLiteral(7.0f64.to_bits())));
    assert_eq!(tokens[1].lexeme, "7");
    assert_eq!(tokens[2].ty, TokenType::Dot);
    assert_eq!(tokens[3].ty, TokenType::Dot);
    assert_eq!(tokens[4].literal, Some(TokenValue::NumberLiteral(5.0f64.to_bits())));
}

#[test]
fn keywords_and_identifiers() {
    assert_eq!(
        kinds_of("and class else false for fun if nil or print return super this true var while"),
        vec![
            TokenType::And,
            TokenType::Class,
            TokenType::Else,
            TokenType::False,
            TokenType::For,
            TokenType::Fun,
            TokenType::If,
            TokenType::Nil,
            TokenType::Or,
            TokenType::Print,
            TokenType::Return,
            TokenType::Super,
            TokenType::This,
            TokenType::True,
            TokenType::Var,
            TokenType::While,
            TokenType::Eof,
        ]
    );
    let tokens = tokens_of("_foo1 variable");
    assert_eq!(tokens[0].literal, Some(TokenValue::Identifier("_foo1".to_string())));
    assert_eq!(tokens[1].ty, TokenType::Ident);
    assert_eq!(tokens[1].lexeme, "variable");
}

#[test]
fn token_text() {
    let token = Token::new(TokenType::Var, "var".to_string(), None, 1);
    assert_eq!(token.to_string(), "Var var");
    assert_eq!(TokenType::GreaterEqual.name(), "GreaterEqual");
}

#[test]
fn scan_error_report() {
    let e = ScanError { line: 4, kind: ScanErrorKind::UnterminatedString };
    assert_eq!(e.report(), "[line 4] Error: Unterminated string.");
    assert_eq!(ScanErrorKind::UnexpectedCharacter.message(), "Unexpected character.");
}
