use vstd::prelude::*;

verus! {

/// The kinds of token the scanner produces.
#[derive(Debug, Clone, Copy, PartialEq, Eq, Structural)]
pub enum TokenType {
    LeftParen,
    RightParen,
    LeftBrace,
    RightBrace,
    Comma,
    Dot,
    Minus,
    Plus,
    Semicolon,
    Slash,
    Star,
    Bang,
    BangEqual,
    Equal,
    EqualEqual,
    Greater,
    GreaterEqual,
    Less,
    LessEqual,
    Ident,
    String,
    Number,
    And,
    Class,
    Else,
    False,
    Fun,
    For,
    If,
    Nil,
    Or,
    Print,
    Return,
    Super,
    This,
    True,
    Var,
    While,
    Eof,
}

/// The name of a token kind.
pub open spec fn kind_name(ty: TokenType) -> Seq<char> {
    match ty {
        TokenType::LeftParen => "LeftParen"@,
        TokenType::RightParen => "RightParen"@,
        TokenType::LeftBrace => "LeftBrace"@,
        TokenType::RightBrace => "RightBrace"@,
        TokenType::Comma => "Comma"@,
        TokenType::Dot => "Dot"@,
        TokenType::Minus => "Minus"@,
        TokenType::Plus => "Plus"@,
        TokenType::Semicolon => "Semicolon"@,
        TokenType::Slash => "Slash"@,
        TokenType::Star => "Star"@,
        TokenType::Bang => "Bang"@,
        TokenType::BangEqual => "BangEqual"@,
        TokenType::Equal => "Equal"@,
        TokenType::EqualEqual => "EqualEqual"@,
        TokenType::Greater => "Greater"@,
        TokenType::GreaterEqual => "GreaterEqual"@,
        TokenType::Less => "Less"@,
        TokenType::LessEqual => "LessEqual"@,
        TokenType::Ident => "Ident"@,
        TokenType::String => "String"@,
        TokenType::Number => "Number"@,
        TokenType::And => "And"@,
        TokenType::Class => "Class"@,
        TokenType::Else => "Else"@,
        TokenType::False => "False"@,
        TokenType::Fun => "Fun"@,
        TokenType::For => "For"@,
        TokenType::If => "If"@,
        TokenType::Nil => "Nil"@,
        TokenType::Or => "Or"@,
        TokenType::Print => "Print"@,
        TokenType::Return => "Return"@,
        TokenType::Super => "Super"@,
        TokenType::This => "This"@,
        TokenType::True => "True"@,
        TokenType::Var => "Var"@,
        TokenType::While => "While"@,
        TokenType::Eof => "Eof"@,
    }
}

impl TokenType {
    /// The name of the kind.
    pub fn name(&self) -> (r: &'static str)
        ensures
            r@ == kind_name(*self),
    {
        match self {
            TokenType::LeftParen => "LeftParen",
            TokenType::RightParen => "RightParen",
            TokenType::LeftBrace => "LeftBrace",
            TokenType::RightBrace => "RightBrace",
            TokenType::Comma => "Comma",
            TokenType::Dot => "Dot",
            TokenType::Minus => "Minus",
            TokenType::Plus => "Plus",
            TokenType::Semicolon => "Semicolon",
            TokenType::Slash => "Slash",
            TokenType::Star => "Star",
            TokenType::Bang => "Bang",
            TokenType::BangEqual => "BangEqual",
            TokenType::Equal => "Equal",
            TokenType::EqualEqual => "EqualEqual",
            TokenType::Greater => "Greater",
            TokenType::GreaterEqual => "GreaterEqual",
            TokenType::Less => "Less",
            TokenType::LessEqual => "LessEqual",
            TokenType::Ident => "Ident",
            TokenType::String => "String",
            TokenType::Number => "Number",
            TokenType::And => "And",
            TokenType::Class => "Class",
            TokenType::Else => "Else",
            TokenType::False => "False",
            TokenType::Fun => "Fun",
            TokenType::For => "For",
            TokenType::If => "If",
            TokenType::Nil => "Nil",
            TokenType::Or => "Or",
            TokenType::Print => "Print",
            TokenType::Return => "Return",
            TokenType::Super => "Super",
            TokenType::This => "This",
            TokenType::True => "True",
            TokenType::Var => "Var",
            TokenType::While => "While",
            TokenType::Eof => "Eof",
        }
    }
}

pub open spec fn is_digit(c: char) -> bool {
    '0' <= c && c <= '9'
}

pub open spec fn is_alpha(c: char) -> bool {
    ('a' <= c && c <= 'z') || ('A' <= c && c <= 'Z') || c == '_'
}

pub open spec fn is_alphanumeric(c: char) -> bool {
    is_alpha(c) || is_digit(c)
}

fn digit(c: char) -> (r: bool)
    ensures
        r == is_digit(c),
{
    '0' <= c && c <= '9'
}

fn alpha(c: char) -> (r: bool)
    ensures
        r == is_alpha(c),
{
    ('a' <= c && c <= 'z') || ('A' <= c && c <= 'Z') || c == '_'
}


/// The payload a token may carry.
#[derive(Debug, Clone)]
pub enum TokenValue {
    /// The text strictly between the quotes of a string literal.
    StringLiteral(String),
    /// The bit pattern of the double that a number literal denotes.
    NumberLiteral(u64),
    /// The name of an identifier.
    Identifier(String),
}

/// What a payload holds, with text as a sequence of characters.
pub enum ValueModel {
    Str(Seq<char>),
    Num(u64),
    Name(Seq<char>),
}

impl View for TokenValue {
    type V = ValueModel;

    open spec fn view(&self) -> ValueModel {
        match self {
            TokenValue::StringLiteral(s) => ValueModel::Str(s@),
            TokenValue::NumberLiteral(n) => ValueModel::Num(*n),
            TokenValue::Identifier(s) => ValueModel::Name(s@),
        }
    }
}

impl PartialEq for TokenValue {
    fn eq(&self, other: &TokenValue) -> (r: bool) {
        match (self, other) {
            (TokenValue::StringLiteral(a), TokenValue::StringLiteral(b)) => a.eq(b),
            (TokenValue::NumberLiteral(a), TokenValue::NumberLiteral(b)) => *a == *b,
            (TokenValue::Identifier(a), TokenValue::Identifier(b)) => a.eq(b),
            _ => false,
        }
    }
}

impl vstd::std_specs::cmp::PartialEqSpecImpl for TokenValue {
    open spec fn obeys_eq_spec() -> bool {
        true
    }

    open spec fn eq_spec(&self, other: &TokenValue) -> bool {
        self@ == other@
    }
}

/// A classified lexeme with its optional payload and source line.
#[derive(Debug, Clone)]
pub struct Token {
    pub ty: TokenType,
    pub lexeme: String,
    pub literal: Option<TokenValue>,
    pub line: usize,
}

/// A token with its text as sequences of characters.
pub struct TokenModel {
    pub ty: TokenType,
    pub lexeme: Seq<char>,
    pub literal: Option<ValueModel>,
    pub line: int,
}

pub open spec fn value_model(v: Option<TokenValue>) -> Option<ValueModel> {
    match v {
        Some(x) => Some(x@),
        None => None,
    }
}

impl View for Token {
    type V = TokenModel;

    open spec fn view(&self) -> TokenModel {
        TokenModel {
            ty: self.ty,
            lexeme: self.lexeme@,
            literal: value_model(self.literal),
            line: self.line as int,
        }
    }
}

impl PartialEq for Token {
    fn eq(&self, other: &Token) -> (r: bool) {
        let same_literal = match (&self.literal, &other.literal) {
            (Some(a), Some(b)) => a.eq(b),
            (None, None) => true,
            _ => false,
        };
        self.ty == other.ty && self.lexeme.eq(&other.lexeme) && same_literal && self.line
            == other.line
    }
}

impl vstd::std_specs::cmp::PartialEqSpecImpl for Token {
    open spec fn obeys_eq_spec() -> bool {
        true
    }

    open spec fn eq_spec(&self, other: &Token) -> bool {
        self@ == other@
    }
}

impl TokenValue {
    /// A copy.
    pub fn duplicate(&self) -> (r: TokenValue)
        ensures
            r == *self,
    {
        match self {
            TokenValue::StringLiteral(s) => TokenValue::StringLiteral(s.clone()),
            TokenValue::NumberLiteral(n) => TokenValue::NumberLiteral(*n),
            TokenValue::Identifier(s) => TokenValue::Identifier(s.clone()),
        }
    }
}

impl Token {
    pub fn new(ty: TokenType, lexeme: String, literal: Option<TokenValue>, line: usize) -> (r:
        Token)
        ensures
            r.ty == ty,
            r.lexeme == lexeme,
            r.literal == literal,
            r.line == line,
    {
        Token { ty, lexeme, literal, line }
    }

    /// The kind's name and the lexeme, separated by a space.
    pub fn to_string(&self) -> (r: String)
        ensures
            r@ == kind_name(self.ty) + " "@ + self.lexeme@,
    {
        String::from_str(self.ty.name()).concat(" ").concat(self.lexeme.as_str())
    }

    /// A copy.
    pub fn duplicate(&self) -> (r: Token)
        ensures
            r == *self,
    {
        let literal = match &self.literal {
            Some(v) => Some(v.duplicate()),
            None => None,
        };
        Token { ty: self.ty, lexeme: self.lexeme.clone(), literal, line: self.line }
    }
}


/// The kinds of lexical error.
#[derive(Debug, Clone, Copy, PartialEq, Eq, Structural)]
pub enum ScanErrorKind {
    UnterminatedString,
    UnexpectedCharacter,
}

/// A lexical error and the line it is reported at.
#[derive(Debug, Clone, Copy, PartialEq, Eq, Structural)]
pub struct ScanError {
    pub line: usize,
    pub kind: ScanErrorKind,
}

/// The message of a lexical error.
pub open spec fn scan_message(kind: ScanErrorKind) -> Seq<char> {
    match kind {
        ScanErrorKind::UnterminatedString => "Unterminated string."@,
        ScanErrorKind::UnexpectedCharacter => "Unexpected character."@,
    }
}

impl ScanErrorKind {
    pub fn message(&self) -> (r: &'static str)
        ensures
            r@ == scan_message(*self),
    {
        match self {
            ScanErrorKind::UnterminatedString => "Unterminated string.",
            ScanErrorKind::UnexpectedCharacter => "Unexpected character.",
        }
    }
}

impl ScanError {
    /// The diagnostic line for this error.
    pub fn report(&self) -> (r: String)
        ensures
            r@ == crate::report_text(self.line as nat, Seq::empty(), scan_message(self.kind)),
    {
        crate::error(self.line, self.kind.message())
    }
}

pub struct ScanErrorModel {
    pub line: int,
    pub kind: ScanErrorKind,
}

impl View for ScanError {
    type V = ScanErrorModel;

    open spec fn view(&self) -> ScanErrorModel {
        ScanErrorModel { line: self.line as int, kind: self.kind }
    }
}

pub open spec fn token_models(v: Seq<Token>) -> Seq<TokenModel> {
    v.map_values(|t: Token| t@)
}

pub open spec fn error_models(v: Seq<ScanError>) -> Seq<ScanErrorModel> {
    v.map_values(|e: ScanError| e@)
}

pub open spec fn char_at(src: Seq<char>, i: int) -> char {
    if 0 <= i < src.len() {
        src[i]
    } else {
        '\0'
    }
}

/// The first index at or after `i` that holds no digit.
pub open spec fn digits_end(src: Seq<char>, i: int) -> int
    decreases src.len() - i,
{
    if 0 <= i < src.len() && is_digit(src[i]) {
        digits_end(src, i + 1)
    } else {
        i
    }
}

/// The first index at or after `i` that holds no letter, digit or underscore.
pub open spec fn word_end(src: Seq<char>, i: int) -> int
    decreases src.len() - i,
{
    if 0 <= i < src.len() && is_alphanumeric(src[i]) {
        word_end(src, i + 1)
    } else {
        i
    }
}

/// The index of the first `c` at or after `i`, or the length if there is none.
pub open spec fn find_char(src: Seq<char>, i: int, c: char) -> int
    decreases src.len() - i,
{
    if 0 <= i < src.len() && src[i] != c {
        find_char(src, i + 1, c)
    } else {
        i
    }
}

/// The number of newline characters in `s`.
pub open spec fn newlines(s: Seq<char>) -> int
    decreases s.len(),
{
    if s.len() == 0 {
        0
    } else {
        newlines(s.drop_last()) + if s.last() == '\n' {
            1int
        } else {
            0int
        }
    }
}

/// The end of a number literal that starts at `i`: digits, then a fraction
/// only where a digit follows the dot.
pub open spec fn number_end(src: Seq<char>, i: int) -> int {
    let e = digits_end(src, i);
    if char_at(src, e) == '.' && is_digit(char_at(src, e + 1)) {
        digits_end(src, e + 1)
    } else {
        e
    }
}

/// The token kind of a character that always stands alone.
pub open spec fn single_kind(c: char) -> Option<TokenType> {
    if c == '(' {
        Some(TokenType::LeftParen)
    } else if c == ')' {
        Some(TokenType::RightParen)
    } else if c == '{' {
        Some(TokenType::LeftBrace)
    } else if c == '}' {
        Some(TokenType::RightBrace)
    } else if c == ',' {
        Some(TokenType::Comma)
    } else if c == '.' {
        Some(TokenType::Dot)
    } else if c == '-' {
        Some(TokenType::Minus)
    } else if c == '+' {
        Some(TokenType::Plus)
    } else if c == ';' {
        Some(TokenType::Semicolon)
    } else if c == '*' {
        Some(TokenType::Star)
    } else {
        None
    }
}

/// The token kind of a character that may take a following `=`.
pub open spec fn pair_kind(c: char, with_equal: bool) -> Option<TokenType> {
    if c == '!' {
        Some(if with_equal { TokenType::BangEqual } else { TokenType::Bang })
    } else if c == '=' {
        Some(if with_equal { TokenType::EqualEqual } else { TokenType::Equal })
    } else if c == '<' {
        Some(if with_equal { TokenType::LessEqual } else { TokenType::Less })
    } else if c == '>' {
        Some(if with_equal { TokenType::GreaterEqual } else { TokenType::Greater })
    } else {
        None
    }
}

/// The reserved words and their token kinds.
pub open spec fn keyword_kind(w: Seq<char>) -> Option<TokenType> {
    if w == seq!['a', 'n', 'd'] {
        Some(TokenType::And)
    } else if w == seq!['c', 'l', 'a', 's', 's'] {
        Some(TokenType::Class)
    } else if w == seq!['e', 'l', 's', 'e'] {
        Some(TokenType::Else)
    } else if w == seq!['f', 'a', 'l', 's', 'e'] {
        Some(TokenType::False)
    } else if w == seq!['f', 'o', 'r'] {
        Some(TokenType::For)
    } else if w == seq!['f', 'u', 'n'] {
        Some(TokenType::Fun)
    } else if w == seq!['i', 'f'] {
        Some(TokenType::If)
    } else if w == seq!['n', 'i', 'l'] {
        Some(TokenType::Nil)
    } else if w == seq!['o', 'r'] {
        Some(TokenType::Or)
    } else if w == seq!['p', 'r', 'i', 'n', 't'] {
        Some(TokenType::Print)
    } else if w == seq!['r', 'e', 't', 'u', 'r', 'n'] {
        Some(TokenType::Return)
    } else if w == seq!['s', 'u', 'p', 'e', 'r'] {
        Some(TokenType::Super)
    } else if w == seq!['t', 'h', 'i', 's'] {
        Some(TokenType::This)
    } else if w == seq!['t', 'r', 'u', 'e'] {
        Some(TokenType::True)
    } else if w == seq!['v', 'a', 'r'] {
        Some(TokenType::Var)
    } else if w == seq!['w', 'h', 'i', 'l', 'e'] {
        Some(TokenType::While)
    } else {
        None
    }
}

/// What one step of the scanner does from position `pos`.
pub struct Lexed {
    pub next: int,
    pub line: int,
    pub token: Option<TokenModel>,
    pub error: Option<ScanErrorModel>,
}

pub open spec fn emit(src: Seq<char>, pos: int, end: int, line: int, ty: TokenType, literal: Option<
    ValueModel,
>) -> Lexed {
    Lexed {
        next: end,
        line,
        token: Some(TokenModel { ty, lexeme: src.subrange(pos, end), literal, line }),
        error: None,
    }
}

pub open spec fn skip(end: int, line: int) -> Lexed {
    Lexed { next: end, line, token: None, error: None }
}

/// One step of scanning at `pos`, on the line `line`; `num` gives the value
/// of a number literal's text.
pub open spec fn step(src: Seq<char>, pos: int, line: int, num: spec_fn(Seq<char>) -> u64) -> Lexed {
    let c = src[pos];
    if single_kind(c) is Some {
        emit(src, pos, pos + 1, line, single_kind(c)->0, None)
    } else if pair_kind(c, false) is Some {
        let with_equal = char_at(src, pos + 1) == '=';
        let end = if with_equal { pos + 2 } else { pos + 1 };
        emit(src, pos, end, line, pair_kind(c, with_equal)->0, None)
    } else if c == '/' {
        if char_at(src, pos + 1) == '/' {
            skip(find_char(src, pos + 2, '\n'), line)
        } else {
            emit(src, pos, pos + 1, line, TokenType::Slash, None)
        }
    } else if c == ' ' || c == '\r' || c == '\t' {
        skip(pos + 1, line)
    } else if c == '\n' {
        skip(pos + 1, line + 1)
    } else if c == '"' {
        let close = find_char(src, pos + 1, '"');
        let last = line + newlines(src.subrange(pos + 1, close));
        if close >= src.len() {
            Lexed {
                next: src.len() as int,
                line: last,
                token: None,
                error: Some(ScanErrorModel { line, kind: ScanErrorKind::UnterminatedString }),
            }
        } else {
            emit(
                src,
                pos,
                close + 1,
                last,
                TokenType::String,
                Some(ValueModel::Str(src.subrange(pos + 1, close))),
            )
        }
    } else if is_digit(c) {
        let end = number_end(src, pos);
        emit(
            src,
            pos,
            end,
            line,
            TokenType::Number,
            Some(ValueModel::Num(num(src.subrange(pos, end)))),
        )
    } else if is_alpha(c) {
        let end = word_end(src, pos + 1);
        let word = src.subrange(pos, end);
        match keyword_kind(word) {
            Some(k) => emit(src, pos, end, line, k, None),
            None => emit(src, pos, end, line, TokenType::Ident, Some(ValueModel::Name(word))),
        }
    } else {
        Lexed {
            next: pos + 1,
            line,
            token: None,
            error: Some(ScanErrorModel { line, kind: ScanErrorKind::UnexpectedCharacter }),
        }
    }
}

pub open spec fn opt_seq<A>(o: Option<A>) -> Seq<A> {
    match o {
        Some(a) => seq![a],
        None => Seq::empty(),
    }
}

/// The tokens and errors of scanning from `pos` to the end.
pub open spec fn scan_from(src: Seq<char>, pos: int, line: int, num: spec_fn(Seq<char>) -> u64) -> (
    Seq<TokenModel>,
    Seq<ScanErrorModel>,
)
    decreases src.len() - pos,
{
    if 0 <= pos < src.len() {
        let l = step(src, pos, line, num);
        if pos < l.next <= src.len() {
            let rest = scan_from(src, l.next, l.line, num);
            (opt_seq(l.token) + rest.0, opt_seq(l.error) + rest.1)
        } else {
            (Seq::empty(), Seq::empty())
        }
    } else {
        (Seq::empty(), Seq::empty())
    }
}

/// The end-of-input sentinel.
pub open spec fn eof_model() -> TokenModel {
    TokenModel { ty: TokenType::Eof, lexeme: Seq::empty(), literal: None, line: 0 }
}

/// The whole token sequence of `src`, sentinel included, and its lexical errors.
pub open spec fn scan(src: Seq<char>, num: spec_fn(Seq<char>) -> u64) -> (
    Seq<TokenModel>,
    Seq<ScanErrorModel>,
) {
    let r = scan_from(src, 0, 1, num);
    (r.0.push(eof_model()), r.1)
}

/// A number parser that is total and gives equal texts equal values.
pub open spec fn parses_consistently<P: Fn(String) -> u64>(parse: &P) -> bool {
    &&& forall|s: String| #[trigger] parse.requires((s,))
    &&& forall|s1: String, s2: String, a: u64, b: u64|
        s1@ == s2@ && #[trigger] parse.ensures((s1,), a) && #[trigger] parse.ensures((s2,), b)
            ==> a == b
}

/// The value that `parse` gives a text.
pub open spec fn number_value<P: Fn(String) -> u64>(parse: &P, text: Seq<char>) -> u64 {
    (choose|b: u64, s: String| s@ == text && #[trigger] parse.ensures((s,), b)).0
}

pub open spec fn number_fn<P: Fn(String) -> u64>(parse: &P) -> spec_fn(Seq<char>) -> u64 {
    |text: Seq<char>| number_value(parse, text)
}


fn word_is(chars: &Vec<char>, s: usize, e: usize, w: &[char]) -> (r: bool)
    requires
        s <= e <= chars.len(),
    ensures
        r == (chars@.subrange(s as int, e as int) == w@),
{
    if e - s != w.len() {
        return false;
    }
    let mut i: usize = 0;
    while i < w.len()
        invariant
            s <= e <= chars.len(),
            e - s == w.len(),
            i <= w.len(),
            forall|k: int| 0 <= k < i ==> chars@[s + k] == w@[k],
        decreases w.len() - i,
    {
        if chars[s + i] != w[i] {
            assert(chars@.subrange(s as int, e as int)[i as int] != w@[i as int]);
            return false;
        }
        i += 1;
    }
    assert(chars@.subrange(s as int, e as int) =~= w@);
    true
}

fn keyword(chars: &Vec<char>, s: usize, e: usize) -> (r: Option<TokenType>)
    requires
        s <= e <= chars.len(),
    ensures
        r == keyword_kind(chars@.subrange(s as int, e as int)),
{
    if word_is(chars, s, e, &['a', 'n', 'd']) {
        return Some(TokenType::And);
    }
    if word_is(chars, s, e, &['c', 'l', 'a', 's', 's']) {
        return Some(TokenType::Class);
    }
    if word_is(chars, s, e, &['e', 'l', 's', 'e']) {
        return Some(TokenType::Else);
    }
    if word_is(chars, s, e, &['f', 'a', 'l', 's', 'e']) {
        return Some(TokenType::False);
    }
    if word_is(chars, s, e, &['f', 'o', 'r']) {
        return Some(TokenType::For);
    }
    if word_is(chars, s, e, &['f', 'u', 'n']) {
        return Some(TokenType::Fun);
    }
    if word_is(chars, s, e, &['i', 'f']) {
        return Some(TokenType::If);
    }
    if word_is(chars, s, e, &['n', 'i', 'l']) {
        return Some(TokenType::Nil);
    }
    if word_is(chars, s, e, &['o', 'r']) {
        return Some(TokenType::Or);
    }
    if word_is(chars, s, e, &['p', 'r', 'i', 'n', 't']) {
        return Some(TokenType::Print);
    }
    if word_is(chars, s, e, &['r', 'e', 't', 'u', 'r', 'n']) {
        return Some(TokenType::Return);
    }
    if word_is(chars, s, e, &['s', 'u', 'p', 'e', 'r']) {
        return Some(TokenType::Super);
    }
    if word_is(chars, s, e, &['t', 'h', 'i', 's']) {
        return Some(TokenType::This);
    }
    if word_is(chars, s, e, &['t', 'r', 'u', 'e']) {
        return Some(TokenType::True);
    }
    if word_is(chars, s, e, &['v', 'a', 'r']) {
        return Some(TokenType::Var);
    }
    if word_is(chars, s, e, &['w', 'h', 'i', 'l', 'e']) {
        return Some(TokenType::While);
    }
    None
}

fn single(c: char) -> (r: Option<TokenType>)
    ensures
        r == single_kind(c),
{
    if c == '(' {
        Some(TokenType::LeftParen)
    } else if c == ')' {
        Some(TokenType::RightParen)
    } else if c == '{' {
        Some(TokenType::LeftBrace)
    } else if c == '}' {
        Some(TokenType::RightBrace)
    } else if c == ',' {
        Some(TokenType::Comma)
    } else if c == '.' {
        Some(TokenType::Dot)
    } else if c == '-' {
        Some(TokenType::Minus)
    } else if c == '+' {
        Some(TokenType::Plus)
    } else if c == ';' {
        Some(TokenType::Semicolon)
    } else if c == '*' {
        Some(TokenType::Star)
    } else {
        None
    }
}

fn pair(c: char, with_equal: bool) -> (r: Option<TokenType>)
    ensures
        r == pair_kind(c, with_equal),
{
    if c == '!' {
        Some(if with_equal { TokenType::BangEqual } else { TokenType::Bang })
    } else if c == '=' {
        Some(if with_equal { TokenType::EqualEqual } else { TokenType::Equal })
    } else if c == '<' {
        Some(if with_equal { TokenType::LessEqual } else { TokenType::Less })
    } else if c == '>' {
        Some(if with_equal { TokenType::GreaterEqual } else { TokenType::Greater })
    } else {
        None
    }
}

proof fn lemma_newlines_bound(s: Seq<char>)
    ensures
        0 <= newlines(s) <= s.len(),
    decreases s.len(),
{
    if s.len() > 0 {
        lemma_newlines_bound(s.drop_last());
    }
}

/// Turns source text into tokens in a single left-to-right pass.
pub struct Scanner {
    source: String,
    chars: Vec<char>,
    tokens: Vec<Token>,
    errors: Vec<ScanError>,
    start: usize,
    current: usize,
    line: usize,
}

impl Scanner {
    /// The source text.
    pub closed spec fn text(&self) -> Seq<char> {
        self.chars@
    }

    /// The index of the next character to scan.
    pub closed spec fn position(&self) -> int {
        self.current as int
    }

    /// The current line.
    pub closed spec fn line(&self) -> int {
        self.line as int
    }

    /// The tokens produced so far.
    pub closed spec fn tokens_view(&self) -> Seq<TokenModel> {
        token_models(self.tokens@)
    }

    /// The lexical errors recorded so far.
    pub closed spec fn errors_view(&self) -> Seq<ScanErrorModel> {
        error_models(self.errors@)
    }

    pub closed spec fn wf(&self) -> bool {
        &&& self.chars@ == self.source@
        &&& self.chars.len() < usize::MAX
        &&& self.start <= self.current <= self.chars.len()
        &&& 1 <= self.line <= self.current + 1
    }

    /// A scanner at the start of `source`, on line 1.
    pub fn new(source: String) -> (r: Scanner)
        requires
            source@.len() < usize::MAX,
        ensures
            r.wf(),
            r.text() == source@,
            r.position() == 0,
            r.line() == 1,
            r.tokens_view() == Seq::<TokenModel>::empty(),
            r.errors_view() == Seq::<ScanErrorModel>::empty(),
    {
        let n = source.as_str().unicode_len();
        let mut chars: Vec<char> = Vec::new();
        let mut i: usize = 0;
        while i < n
            invariant
                n == source@.len(),
                i <= n,
                chars@ == source@.subrange(0, i as int),
            decreases n - i,
        {
            chars.push(source.as_str().get_char(i));
            i += 1;
        }
        assert(chars@ =~= source@);
        let r = Scanner {
            source,
            chars,
            tokens: Vec::new(),
            errors: Vec::new(),
            start: 0,
            current: 0,
            line: 1,
        };
        assert(r.tokens_view() =~= Seq::<TokenModel>::empty());
        assert(r.errors_view() =~= Seq::<ScanErrorModel>::empty());
        r
    }

    fn is_at_end(&self) -> (r: bool)
        requires
            self.wf(),
        ensures
            r == (self.current >= self.chars.len()),
    {
        self.current >= self.chars.len()
    }

    fn char_at(&self, i: usize) -> (c: char)
        ensures
            c == char_at(self.chars@, i as int),
    {
        if i < self.chars.len() {
            self.chars[i]
        } else {
            '\0'
        }
    }

    fn digits_from(&self, i: usize) -> (r: usize)
        requires
            i <= self.chars.len(),
        ensures
            r == digits_end(self.chars@, i as int),
            i <= r <= self.chars.len(),
    {
        let mut j = i;
        while j < self.chars.len() && digit(self.chars[j])
            invariant
                i <= j <= self.chars.len(),
                digits_end(self.chars@, j as int) == digits_end(self.chars@, i as int),
            decreases self.chars.len() - j,
        {
            j += 1;
        }
        j
    }

    fn word_from(&self, i: usize) -> (r: usize)
        requires
            i <= self.chars.len(),
        ensures
            r == word_end(self.chars@, i as int),
            i <= r <= self.chars.len(),
    {
        let mut j = i;
        while j < self.chars.len() && (alpha(self.chars[j]) || digit(self.chars[j]))
            invariant
                i <= j <= self.chars.len(),
                word_end(self.chars@, j as int) == word_end(self.chars@, i as int),
            decreases self.chars.len() - j,
        {
            j += 1;
        }
        j
    }

    fn find_from(&self, i: usize, c: char) -> (r: usize)
        requires
            i <= self.chars.len(),
        ensures
            r == find_char(self.chars@, i as int, c),
            i <= r <= self.chars.len(),
    {
        let mut j = i;
        while j < self.chars.len() && self.chars[j] != c
            invariant
                i <= j <= self.chars.len(),
                find_char(self.chars@, j as int, c) == find_char(self.chars@, i as int, c),
            decreases self.chars.len() - j,
        {
            j += 1;
        }
        j
    }

    fn count_newlines(&self, a: usize, b: usize) -> (r: usize)
        requires
            a <= b <= self.chars.len(),
        ensures
            r == newlines(self.chars@.subrange(a as int, b as int)),
    {
        let mut j = a;
        let mut n: usize = 0;
        while j < b
            invariant
                a <= j <= b <= self.chars.len(),
                n == newlines(self.chars@.subrange(a as int, j as int)),
            decreases b - j,
        {
            assert(self.chars@.subrange(a as int, j + 1).drop_last() =~= self.chars@.subrange(
                a as int,
                j as int,
            ));
            proof {
                lemma_newlines_bound(self.chars@.subrange(a as int, j as int));
            }
            if self.chars[j] == '\n' {
                n += 1;
            }
            j += 1;
        }
        n
    }

    fn lexeme(&self, s: usize, e: usize) -> (r: String)
        requires
            self.wf(),
            s <= e <= self.chars.len(),
        ensures
            r@ == self.chars@.subrange(s as int, e as int),
    {
        String::from_str(self.source.as_str().substring_char(s, e))
    }

    fn add_token(&mut self, ty: TokenType, end: usize, line: usize, literal: Option<TokenValue>)
        requires
            old(self).wf(),
            old(self).start <= end <= old(self).chars.len(),
            1 <= line <= end + 1,
        ensures
            final(self).wf(),
            final(self).chars == old(self).chars,
            final(self).source == old(self).source,
            final(self).errors == old(self).errors,
            final(self).current == end,
            final(self).line == line,
            final(self).tokens@ == old(self).tokens@.push(
                Token {
                    ty,
                    lexeme: final(self).tokens@.last().lexeme,
                    literal,
                    line,
                },
            ),
            final(self).tokens@.last().lexeme@ == old(self).chars@.subrange(
                old(self).start as int,
                end as int,
            ),
    {
        let text = self.lexeme(self.start, end);
        self.tokens.push(Token::new(ty, text, literal, line));
        self.current = end;
        self.line = line;
    }

    fn add_error(&mut self, kind: ScanErrorKind, line: usize, end: usize, next_line: usize)
        requires
            old(self).wf(),
            old(self).start <= end <= old(self).chars.len(),
            1 <= next_line <= end + 1,
        ensures
            final(self).wf(),
            final(self).chars == old(self).chars,
            final(self).source == old(self).source,
            final(self).tokens == old(self).tokens,
            final(self).current == end,
            final(self).line == next_line,
            final(self).errors@ == old(self).errors@.push(ScanError { line, kind }),
    {
        self.errors.push(ScanError { line, kind });
        self.current = end;
        self.line = next_line;
    }

    fn scan_token<P: Fn(String) -> u64>(&mut self, parse: &P)
        requires
            old(self).wf(),
            old(self).current < old(self).chars.len(),
            parses_consistently(parse),
        ensures
            final(self).wf(),
            final(self).chars == old(self).chars,
            final(self).source == old(self).source,
            old(self).current < final(self).current,
            ({
                let l = step(
                    old(self).chars@,
                    old(self).current as int,
                    old(self).line as int,
                    number_fn(parse),
                );
                &&& final(self).current == l.next
                &&& final(self).line == l.line
                &&& token_models(final(self).tokens@) == token_models(old(self).tokens@)
                    + opt_seq(l.token)
                &&& error_models(final(self).errors@) == error_models(old(self).errors@)
                    + opt_seq(l.error)
            }),
    {
        let ghost src = self.chars@;
        let ghost old_tokens = self.tokens@;
        let ghost old_errors = self.errors@;
        let pos = self.current;
        let line = self.line;
        self.start = pos;
        let c = self.chars[pos];
        let len = self.chars.len();
        match single(c) {
            Some(ty) => {
                self.add_token(ty, pos + 1, line, None);
            },
            None => {
                if pair(c, false).is_some() {
                    let with_equal = self.char_at(pos + 1) == '=';
                    let end = if with_equal { pos + 2 } else { pos + 1 };
                    let ty = pair(c, with_equal).unwrap();
                    self.add_token(ty, end, line, None);
                } else if c == '/' {
                    if self.char_at(pos + 1) == '/' {
                        self.current = self.find_from(pos + 2, '\n');
                    } else {
                        self.add_token(TokenType::Slash, pos + 1, line, None);
                    }
                } else if c == ' ' || c == '\r' || c == '\t' {
                    self.current = pos + 1;
                } else if c == '\n' {
                    self.current = pos + 1;
                    self.line = line + 1;
                } else if c == '"' {
                    let close = self.find_from(pos + 1, '"');
                    let n = self.count_newlines(pos + 1, close);
                    proof {
                        lemma_newlines_bound(src.subrange(pos + 1, close as int));
                    }
                    if close >= len {
                        self.add_error(ScanErrorKind::UnterminatedString, line, len, line + n);
                    } else {
                        let value = self.lexeme(pos + 1, close);
                        self.add_token(
                            TokenType::String,
                            close + 1,
                            line + n,
                            Some(TokenValue::StringLiteral(value)),
                        );
                    }
                } else if digit(c) {
                    let e = self.digits_from(pos + 1);
                    assert(digits_end(src, pos as int) == digits_end(src, pos + 1));
                    let end = if self.char_at(e) == '.' && digit(self.char_at(e + 1)) {
                        self.digits_from(e + 1)
                    } else {
                        e
                    };
                    let text = self.lexeme(pos, end);
                    let ghost arg = text;
                    let bits = parse(text);
                    proof {
                        let w = choose|b: u64, s: String|
                            s@ == arg@ && #[trigger] parse.ensures((s,), b);
                        assert(parse.ensures((w.1,), w.0));
                    }
                    self.add_token(TokenType::Number, end, line, Some(TokenValue::NumberLiteral(bits)));
                } else if alpha(c) {
                    let end = self.word_from(pos + 1);
                    match keyword(&self.chars, pos, end) {
                        Some(k) => {
                            self.add_token(k, end, line, None);
                        },
                        None => {
                            let name = self.lexeme(pos, end);
                            self.add_token(
                                TokenType::Ident,
                                end,
                                line,
                                Some(TokenValue::Identifier(name)),
                            );
                        },
                    }
                } else {
                    self.add_error(ScanErrorKind::UnexpectedCharacter, line, pos + 1, line);
                }
            },
        }
        assert(token_models(self.tokens@) =~= token_models(old_tokens) + opt_seq(
            step(src, pos as int, line as int, number_fn(parse)).token,
        ));
        assert(error_models(self.errors@) =~= error_models(old_errors) + opt_seq(
            step(src, pos as int, line as int, number_fn(parse)).error,
        ));
    }

    /// Scans the rest of the text, appends the end-of-input sentinel, and
    /// returns all tokens produced. `parse` gives the bit pattern of the
    /// double that a number literal's text denotes.
    pub fn scan_tokens<P: Fn(String) -> u64>(&mut self, parse: &P) -> (r: &Vec<Token>)
        requires
            old(self).wf(),
            parses_consistently(parse),
        ensures
            final(self).wf(),
            final(self).text() == old(self).text(),
            token_models(r@) == final(self).tokens_view(),
            final(self).tokens_view() == old(self).tokens_view() + scan_from(
                old(self).text(),
                old(self).position(),
                old(self).line(),
                number_fn(parse),
            ).0.push(eof_model()),
            final(self).errors_view() == old(self).errors_view() + scan_from(
                old(self).text(),
                old(self).position(),
                old(self).line(),
                number_fn(parse),
            ).1,
    {
        let ghost src = self.chars@;
        let ghost num = number_fn(parse);
        let ghost goal = scan_from(src, self.current as int, self.line as int, num);
        let ghost t0 = token_models(self.tokens@);
        let ghost e0 = error_models(self.errors@);
        while !self.is_at_end()
            invariant
                self.wf(),
                self.chars@ == src,
                num == number_fn(parse),
                parses_consistently(parse),
                t0 + goal.0 == token_models(self.tokens@) + scan_from(
                    src,
                    self.current as int,
                    self.line as int,
                    num,
                ).0,
                e0 + goal.1 == error_models(self.errors@) + scan_from(
                    src,
                    self.current as int,
                    self.line as int,
                    num,
                ).1,
            decreases self.chars.len() - self.current,
        {
            let ghost t1 = token_models(self.tokens@);
            let ghost e1 = error_models(self.errors@);
            let ghost l = step(src, self.current as int, self.line as int, num);
            let ghost rest = scan_from(src, l.next, l.line, num);
            self.scan_token(parse);
            assert(t1 + (opt_seq(l.token) + rest.0) =~= (t1 + opt_seq(l.token)) + rest.0);
            assert(e1 + (opt_seq(l.error) + rest.1) =~= (e1 + opt_seq(l.error)) + rest.1);
        }
        assert(scan_from(src, self.current as int, self.line as int, num).0 =~= Seq::empty());
        assert(token_models(self.tokens@) =~= t0 + goal.0);
        assert(error_models(self.errors@) =~= e0 + goal.1);
        let eof = Token::new(TokenType::Eof, String::new(), None, 0);
        assert(eof@ == eof_model()) by {
            assert(eof.lexeme@ =~= Seq::<char>::empty());
        }
        let ghost before = self.tokens@;
        self.tokens.push(eof);
        assert(token_models(self.tokens@) =~= token_models(before).push(eof@));
        assert(token_models(self.tokens@) =~= t0 + goal.0.push(eof_model()));
        &self.tokens
    }

    /// The lexical errors recorded so far.
    pub fn errors(&self) -> (r: &Vec<ScanError>)
        ensures
            error_models(r@) == self.errors_view(),
    {
        &self.errors
    }

    /// Gives up the scanner and returns the tokens produced.
    pub fn into_tokens(self) -> (r: Vec<Token>)
        ensures
            token_models(r@) == self.tokens_view(),
    {
        self.tokens
    }
}

} // verus!
