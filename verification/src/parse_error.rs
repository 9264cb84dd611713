use vstd::prelude::*;

use crate::token::{Token, TokenV};

verus! {

/// Every way parsing can fail.  Token mismatches carry the expected and
/// the actual token kind; `DepthLimit` reports an expression nested beyond
/// the parser's recursion budget.
#[derive(Debug, PartialEq)]
pub enum ParserError {
    WrongCurrentToken { expected_token: TokenType, actual_token: TokenType },
    WrongPeekToken { expected_token: TokenType, actual_token: TokenType },
    WrongToken { expected_token: TokenType, actual_token: TokenType },
    InvalidTokenToExpression(Token),
    UnexpectedStatementStart(Token),
    NoValidPrefix(TokenType),
    ParserError(String),
    DepthLimit,
}

/// The kind of a token, without its payload.
#[derive(Debug, PartialEq, Eq, Structural, Clone, Copy)]
pub enum TokenType {
    Identifier,
    Int,
    Illegal,
    Eof,
    Assign,
    Bang,
    Dash,
    ForwardSlash,
    Asterisk,
    Equal,
    NotEqual,
    LessThan,
    LessThanEqual,
    GreaterThanEqual,
    GreaterThan,
    Plus,
    Comma,
    Semicolon,
    Colon,
    Lparen,
    Rparen,
    LSquirly,
    RSquirly,
    LBracket,
    RBracket,
    Function,
    Let,
    If,
    Else,
    Return,
    Bool,
    String,
}

/// The kind of a token model.
pub open spec fn spec_token_type(t: TokenV) -> TokenType {
    match t {
        TokenV::Ident(_) => TokenType::Identifier,
        TokenV::Int(_) => TokenType::Int,
        TokenV::StrLit(_) => TokenType::String,
        TokenV::Bool(_) => TokenType::Bool,
        TokenV::Illegal => TokenType::Illegal,
        TokenV::Eof => TokenType::Eof,
        TokenV::Assign => TokenType::Assign,
        TokenV::Bang => TokenType::Bang,
        TokenV::Dash => TokenType::Dash,
        TokenV::ForwardSlash => TokenType::ForwardSlash,
        TokenV::Asterisk => TokenType::Asterisk,
        TokenV::Equal => TokenType::Equal,
        TokenV::NotEqual => TokenType::NotEqual,
        TokenV::LessThan => TokenType::LessThan,
        TokenV::LessThanEqual => TokenType::LessThanEqual,
        TokenV::GreaterThan => TokenType::GreaterThan,
        TokenV::GreaterThanEqual => TokenType::GreaterThanEqual,
        TokenV::Plus => TokenType::Plus,
        TokenV::Comma => TokenType::Comma,
        TokenV::Semicolon => TokenType::Semicolon,
        TokenV::Colon => TokenType::Colon,
        TokenV::LParen => TokenType::Lparen,
        TokenV::RParent => TokenType::Rparen,
        TokenV::LBrace => TokenType::LSquirly,
        TokenV::RBrace => TokenType::RSquirly,
        TokenV::LBracket => TokenType::LBracket,
        TokenV::RBracket => TokenType::RBracket,
        TokenV::Function => TokenType::Function,
        TokenV::Let => TokenType::Let,
        TokenV::If => TokenType::If,
        TokenV::Else => TokenType::Else,
        TokenV::Return => TokenType::Return,
    }
}

impl TokenType {
    /// The kind of the given token.
    pub fn from_token(token: &Token) -> (r: TokenType)
        ensures
            r == spec_token_type(token@),
    {
        match token {
            Token::Ident(_) => TokenType::Identifier,
            Token::Int(_) => TokenType::Int,
            Token::String(_) => TokenType::String,
            Token::Bool(_) => TokenType::Bool,
            Token::Illegal => TokenType::Illegal,
            Token::Eof => TokenType::Eof,
            Token::Assign => TokenType::Assign,
            Token::Bang => TokenType::Bang,
            Token::Dash => TokenType::Dash,
            Token::ForwardSlash => TokenType::ForwardSlash,
            Token::Asterisk => TokenType::Asterisk,
            Token::Equal => TokenType::Equal,
            Token::NotEqual => TokenType::NotEqual,
            Token::LessThan => TokenType::LessThan,
            Token::LessThanEqual => TokenType::LessThanEqual,
            Token::GreaterThan => TokenType::GreaterThan,
            Token::GreaterThanEqual => TokenType::GreaterThanEqual,
            Token::Plus => TokenType::Plus,
            Token::Comma => TokenType::Comma,
            Token::Semicolon => TokenType::Semicolon,
            Token::Colon => TokenType::Colon,
            Token::LParen => TokenType::Lparen,
            Token::RParent => TokenType::Rparen,
            Token::LBrace => TokenType::LSquirly,
            Token::RBrace => TokenType::RSquirly,
            Token::LBracket => TokenType::LBracket,
            Token::RBracket => TokenType::RBracket,
            Token::Function => TokenType::Function,
            Token::Let => TokenType::Let,
            Token::If => TokenType::If,
            Token::Else => TokenType::Else,
            Token::Return => TokenType::Return,
        }
    }
}

} // verus!
