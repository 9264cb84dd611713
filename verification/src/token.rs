use vstd::prelude::*;

verus! {

/// A single lexical token of the language.
///
/// `Ident`, `Int`, `String` and `Bool` carry a payload; every other variant
/// is a bare marker for an operator, a punctuation character, a keyword, or
/// the synthetic end of input.
#[derive(Debug, PartialEq, Clone)]
pub enum Token {
    Ident(String),
    Int(i64),
    String(String),
    Bool(bool),

    Illegal,
    Eof,
    Assign,

    Bang,
    Dash,
    ForwardSlash,
    Asterisk,
    Equal,
    NotEqual,
    LessThan,
    LessThanEqual,
    GreaterThan,
    GreaterThanEqual,

    Plus,
    Comma,
    Semicolon,
    Colon,
    LParen,
    RParent,
    LBrace,
    RBrace,
    LBracket,
    RBracket,

    Function,
    Let,

    If,
    Else,
    Return,
}

/// The mathematical model of a [`Token`]: payloads are sequences of
/// characters and plain integers, so spec-level code can build and compare
/// token values freely.
pub enum TokenV {
    Ident(Seq<char>),
    Int(i64),
    StrLit(Seq<char>),
    Bool(bool),

    Illegal,
    Eof,
    Assign,

    Bang,
    Dash,
    ForwardSlash,
    Asterisk,
    Equal,
    NotEqual,
    LessThan,
    LessThanEqual,
    GreaterThan,
    GreaterThanEqual,

    Plus,
    Comma,
    Semicolon,
    Colon,
    LParen,
    RParent,
    LBrace,
    RBrace,
    LBracket,
    RBracket,

    Function,
    Let,

    If,
    Else,
    Return,
}

impl View for Token {
    type V = TokenV;

    open spec fn view(&self) -> TokenV {
        match self {
            Token::Ident(s) => TokenV::Ident(s@),
            Token::Int(i) => TokenV::Int(*i),
            Token::String(s) => TokenV::StrLit(s@),
            Token::Bool(b) => TokenV::Bool(*b),
            Token::Illegal => TokenV::Illegal,
            Token::Eof => TokenV::Eof,
            Token::Assign => TokenV::Assign,
            Token::Bang => TokenV::Bang,
            Token::Dash => TokenV::Dash,
            Token::ForwardSlash => TokenV::ForwardSlash,
            Token::Asterisk => TokenV::Asterisk,
            Token::Equal => TokenV::Equal,
            Token::NotEqual => TokenV::NotEqual,
            Token::LessThan => TokenV::LessThan,
            Token::LessThanEqual => TokenV::LessThanEqual,
            Token::GreaterThan => TokenV::GreaterThan,
            Token::GreaterThanEqual => TokenV::GreaterThanEqual,
            Token::Plus => TokenV::Plus,
            Token::Comma => TokenV::Comma,
            Token::Semicolon => TokenV::Semicolon,
            Token::Colon => TokenV::Colon,
            Token::LParen => TokenV::LParen,
            Token::RParent => TokenV::RParent,
            Token::LBrace => TokenV::LBrace,
            Token::RBrace => TokenV::RBrace,
            Token::LBracket => TokenV::LBracket,
            Token::RBracket => TokenV::RBracket,
            Token::Function => TokenV::Function,
            Token::Let => TokenV::Let,
            Token::If => TokenV::If,
            Token::Else => TokenV::Else,
            Token::Return => TokenV::Return,
        }
    }
}

impl Token {
    /// A structural copy of the token whose model is the same as the
    /// original's; written by hand so that verified callers know the view is
    /// preserved, which a derived `Clone` would not give them.
    pub fn duplicate(&self) -> (r: Token)
        ensures
            r@ == self@,
    {
        match self {
            Token::Ident(s) => Token::Ident(s.clone()),
            Token::Int(i) => Token::Int(*i),
            Token::String(s) => Token::String(s.clone()),
            Token::Bool(b) => Token::Bool(*b),
            Token::Illegal => Token::Illegal,
            Token::Eof => Token::Eof,
            Token::Assign => Token::Assign,
            Token::Bang => Token::Bang,
            Token::Dash => Token::Dash,
            Token::ForwardSlash => Token::ForwardSlash,
            Token::Equal => Token::Equal,
            Token::NotEqual => Token::NotEqual,
            Token::LessThan => Token::LessThan,
            Token::LessThanEqual => Token::LessThanEqual,
            Token::GreaterThan => Token::GreaterThan,
            Token::GreaterThanEqual => Token::GreaterThanEqual,
            Token::Asterisk => Token::Asterisk,
            Token::Plus => Token::Plus,
            Token::Comma => Token::Comma,
            Token::Semicolon => Token::Semicolon,
            Token::Colon => Token::Colon,
            Token::LParen => Token::LParen,
            Token::RParent => Token::RParent,
            Token::LBrace => Token::LBrace,
            Token::RBrace => Token::RBrace,
            Token::LBracket => Token::LBracket,
            Token::RBracket => Token::RBracket,
            Token::Function => Token::Function,
            Token::Let => Token::Let,
            Token::If => Token::If,
            Token::Else => Token::Else,
            Token::Return => Token::Return,
        }
    }

    /// True when the token is the end-of-input marker.
    pub fn is_eof(&self) -> (r: bool)
        ensures
            r == (self@ is Eof),
    {
        matches!(self, Token::Eof)
    }
}

impl From<i64> for Token {
    fn from(value: i64) -> (r: Self) {
        Token::Int(value)
    }
}

impl vstd::std_specs::convert::FromSpecImpl<i64> for Token {
    open spec fn obeys_from_spec() -> bool {
        true
    }

    open spec fn from_spec(value: i64) -> Self {
        Token::Int(value)
    }
}

impl From<bool> for Token {
    fn from(value: bool) -> (r: Self) {
        Token::Bool(value)
    }
}

impl vstd::std_specs::convert::FromSpecImpl<bool> for Token {
    open spec fn obeys_from_spec() -> bool {
        true
    }

    open spec fn from_spec(value: bool) -> Self {
        Token::Bool(value)
    }
}

impl From<String> for Token {
    fn from(value: String) -> (r: Self) {
        Token::Ident(value)
    }
}

impl vstd::std_specs::convert::FromSpecImpl<String> for Token {
    open spec fn obeys_from_spec() -> bool {
        true
    }

    open spec fn from_spec(value: String) -> Self {
        Token::Ident(value)
    }
}

impl Token {
    /// Builds a token from any value with a conversion into [`Token`]; an
    /// integer becomes an integer literal, a string an identifier, a boolean
    /// a boolean literal.
    pub fn new<T: Into<Token>>(value: T) -> (r: Token) {
        value.into()
    }
}

/// The model of a token sequence, token by token.
pub open spec fn tokens_view(s: Seq<Token>) -> Seq<TokenV>
    decreases s,
{
    if s.len() == 0 {
        Seq::empty()
    } else {
        tokens_view(s.drop_last()).push(s.last()@)
    }
}

/// `tokens_view` maps the sequence token by token.
pub proof fn lemma_tokens_view(s: Seq<Token>)
    ensures
        tokens_view(s).len() == s.len(),
        forall|i: int| 0 <= i < s.len() ==> tokens_view(s)[i] == s[i]@,
    decreases s.len(),
{
    if s.len() > 0 {
        lemma_tokens_view(s.drop_last());
    }
}

/// Appending one token appends its model.
pub proof fn lemma_tokens_view_push(s: Seq<Token>, x: Token)
    ensures
        tokens_view(s.push(x)) == tokens_view(s).push(x@),
{
    assert(s.push(x).drop_last() =~= s);
    assert(s.push(x).last() == x);
}

impl<'a> From<&'a str> for Token {
    fn from(value: &'a str) -> (r: Self) {
        Token::Ident(value.to_owned())
    }
}

impl<'a> vstd::std_specs::convert::FromSpecImpl<&'a str> for Token {
    open spec fn obeys_from_spec() -> bool {
        false
    }

    open spec fn from_spec(value: &'a str) -> Self {
        Token::Ident(choose|o: String| o@ == value@)
    }
}

} // verus!
