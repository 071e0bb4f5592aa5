use vstd::prelude::*;

verus! {

/// A lexical token of the Monkey language.
#[derive(Debug, Clone, PartialEq, Eq)]
pub enum Token {
    Illegal,
    EOF,
    // identifier and literals
    Ident(String),
    StringLiteral(String),
    IntLiteral(i64),
    BoolLiteral(bool),
    // statements
    Assign,
    If,
    Else,
    // operators
    Plus,
    Minus,
    Divide,
    Multiply,
    Equal,
    NotEqual,
    GreaterThanEqual,
    LessThanEqual,
    GreaterThan,
    LessThan,
    Not,
    // reserved words
    Function,
    Let,
    Return,
    // punctuations
    Comma,
    Colon,
    SemiColon,
    LParen,
    RParen,
    LBrace,
    RBrace,
    LBracket,
    RBracket,
}

/// A window onto a token buffer, as handed to the parser.
#[derive(Debug, Clone, Copy)]
pub struct Tokens<'a> {
    pub tok: &'a [Token],
    pub start: usize,
    pub end: usize,
}

impl<'a> Tokens<'a> {
    /// Wraps a whole token buffer.
    pub fn new(vec: &'a [Token]) -> (t: Tokens<'a>)
        ensures
            t.tok@ == vec@,
            t.start == 0,
            t.end == vec@.len(),
    {
        Tokens { tok: vec, start: 0, end: vec.len() }
    }
}

/// The position of a token's variant in the declaration of `Token`.
pub open spec fn token_tag(t: Token) -> int {
    match t {
        Token::Illegal => 0,
        Token::EOF => 1,
        Token::Ident(_) => 2,
        Token::StringLiteral(_) => 3,
        Token::IntLiteral(_) => 4,
        Token::BoolLiteral(_) => 5,
        Token::Assign => 6,
        Token::If => 7,
        Token::Else => 8,
        Token::Plus => 9,
        Token::Minus => 10,
        Token::Divide => 11,
        Token::Multiply => 12,
        Token::Equal => 13,
        Token::NotEqual => 14,
        Token::GreaterThanEqual => 15,
        Token::LessThanEqual => 16,
        Token::GreaterThan => 17,
        Token::LessThan => 18,
        Token::Not => 19,
        Token::Function => 20,
        Token::Let => 21,
        Token::Return => 22,
        Token::Comma => 23,
        Token::Colon => 24,
        Token::SemiColon => 25,
        Token::LParen => 26,
        Token::RParen => 27,
        Token::LBrace => 28,
        Token::RBrace => 29,
        Token::LBracket => 30,
        Token::RBracket => 31,
    }
}

/// Token equality: the same variant, carrying equal contents.
pub open spec fn token_eq(a: Token, b: Token) -> bool {
    &&& token_tag(a) == token_tag(b)
    &&& match (a, b) {
        (Token::Ident(x), Token::Ident(y)) => x@ == y@,
        (Token::StringLiteral(x), Token::StringLiteral(y)) => x@ == y@,
        (Token::IntLiteral(x), Token::IntLiteral(y)) => x == y,
        (Token::BoolLiteral(x), Token::BoolLiteral(y)) => x == y,
        _ => true,
    }
}

fn tag_of(t: &Token) -> (r: u8)
    ensures
        r as int == token_tag(*t),
{
    match t {
        Token::Illegal => 0,
        Token::EOF => 1,
        Token::Ident(_) => 2,
        Token::StringLiteral(_) => 3,
        Token::IntLiteral(_) => 4,
        Token::BoolLiteral(_) => 5,
        Token::Assign => 6,
        Token::If => 7,
        Token::Else => 8,
        Token::Plus => 9,
        Token::Minus => 10,
        Token::Divide => 11,
        Token::Multiply => 12,
        Token::Equal => 13,
        Token::NotEqual => 14,
        Token::GreaterThanEqual => 15,
        Token::LessThanEqual => 16,
        Token::GreaterThan => 17,
        Token::LessThan => 18,
        Token::Not => 19,
        Token::Function => 20,
        Token::Let => 21,
        Token::Return => 22,
        Token::Comma => 23,
        Token::Colon => 24,
        Token::SemiColon => 25,
        Token::LParen => 26,
        Token::RParen => 27,
        Token::LBrace => 28,
        Token::RBrace => 29,
        Token::LBracket => 30,
        Token::RBracket => 31,
    }
}

/// Decides token equality.
pub fn tokens_equal(a: &Token, b: &Token) -> (r: bool)
    ensures
        r == token_eq(*a, *b),
{
    if tag_of(a) != tag_of(b) {
        return false;
    }
    match (a, b) {
        (Token::Ident(x), Token::Ident(y)) => *x == *y,
        (Token::StringLiteral(x), Token::StringLiteral(y)) => *x == *y,
        (Token::IntLiteral(x), Token::IntLiteral(y)) => *x == *y,
        (Token::BoolLiteral(x), Token::BoolLiteral(y)) => *x == *y,
        _ => true,
    }
}

} // verus!
