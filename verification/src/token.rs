//! Tokens: the lexical categories of the language, each with its source text
//! and the line it was read on.

use vstd::prelude::*;

verus! {

/// The lexical category of a token. Identifiers, strings and numbers carry
/// their payload; every other category is a bare tag.
#[derive(Debug, PartialEq, Eq)]
pub enum TokenType {
    LeftParen,
    RightParen,
    LeftBrace,
    RightBrace,
    Comma,
    Dot,
    Minus,
    Plus,
    Semicolon,
    Slash,
    Star,
    Bang,
    BangEqual,
    Equal,
    EqualEqual,
    Greater,
    GreaterEqual,
    Less,
    LessEqual,
    /// A name, with its text.
    Identifier(String),
    /// A string literal, with the characters between its quotes.
    String(String),
    /// A number literal, with its decimal digits as written.
    Number(String),
    And,
    Class,
    Else,
    False,
    Fun,
    For,
    If,
    Nil,
    Or,
    Print,
    Return,
    Super,
    This,
    True,
    Var,
    While,
    /// The sentinel that ends every token sequence.
    Eof,
}

/// The mathematical model of a [`TokenType`]: the same categories, with each
/// payload as a sequence of characters.
pub enum TokenTypeView {
    LeftParen,
    RightParen,
    LeftBrace,
    RightBrace,
    Comma,
    Dot,
    Minus,
    Plus,
    Semicolon,
    Slash,
    Star,
    Bang,
    BangEqual,
    Equal,
    EqualEqual,
    Greater,
    GreaterEqual,
    Less,
    LessEqual,
    Identifier(Seq<char>),
    String(Seq<char>),
    Number(Seq<char>),
    And,
    Class,
    Else,
    False,
    Fun,
    For,
    If,
    Nil,
    Or,
    Print,
    Return,
    Super,
    This,
    True,
    Var,
    While,
    Eof,
}

impl View for TokenType {
    type V = TokenTypeView;

    open spec fn view(&self) -> TokenTypeView {
        match self {
            TokenType::LeftParen => TokenTypeView::LeftParen,
            TokenType::RightParen => TokenTypeView::RightParen,
            TokenType::LeftBrace => TokenTypeView::LeftBrace,
            TokenType::RightBrace => TokenTypeView::RightBrace,
            TokenType::Comma => TokenTypeView::Comma,
            TokenType::Dot => TokenTypeView::Dot,
            TokenType::Minus => TokenTypeView::Minus,
            TokenType::Plus => TokenTypeView::Plus,
            TokenType::Semicolon => TokenTypeView::Semicolon,
            TokenType::Slash => TokenTypeView::Slash,
            TokenType::Star => TokenTypeView::Star,
            TokenType::Bang => TokenTypeView::Bang,
            TokenType::BangEqual => TokenTypeView::BangEqual,
            TokenType::Equal => TokenTypeView::Equal,
            TokenType::EqualEqual => TokenTypeView::EqualEqual,
            TokenType::Greater => TokenTypeView::Greater,
            TokenType::GreaterEqual => TokenTypeView::GreaterEqual,
            TokenType::Less => TokenTypeView::Less,
            TokenType::LessEqual => TokenTypeView::LessEqual,
            TokenType::Identifier(text) => TokenTypeView::Identifier(text@),
            TokenType::String(text) => TokenTypeView::String(text@),
            TokenType::Number(text) => TokenTypeView::Number(text@),
            TokenType::And => TokenTypeView::And,
            TokenType::Class => TokenTypeView::Class,
            TokenType::Else => TokenTypeView::Else,
            TokenType::False => TokenTypeView::False,
            TokenType::Fun => TokenTypeView::Fun,
            TokenType::For => TokenTypeView::For,
            TokenType::If => TokenTypeView::If,
            TokenType::Nil => TokenTypeView::Nil,
            TokenType::Or => TokenTypeView::Or,
            TokenType::Print => TokenTypeView::Print,
            TokenType::Return => TokenTypeView::Return,
            TokenType::Super => TokenTypeView::Super,
            TokenType::This => TokenTypeView::This,
            TokenType::True => TokenTypeView::True,
            TokenType::Var => TokenTypeView::Var,
            TokenType::While => TokenTypeView::While,
            TokenType::Eof => TokenTypeView::Eof,
        }
    }
}

impl TokenTypeView {
    /// The position of the category in the closed set of categories. Two
    /// token types have the same tag exactly when they are the same variant,
    /// whatever their payloads.
    pub open spec fn tag(self) -> nat {
        match self {
            TokenTypeView::LeftParen => 0,
            TokenTypeView::RightParen => 1,
            TokenTypeView::LeftBrace => 2,
            TokenTypeView::RightBrace => 3,
            TokenTypeView::Comma => 4,
            TokenTypeView::Dot => 5,
            TokenTypeView::Minus => 6,
            TokenTypeView::Plus => 7,
            TokenTypeView::Semicolon => 8,
            TokenTypeView::Slash => 9,
            TokenTypeView::Star => 10,
            TokenTypeView::Bang => 11,
            TokenTypeView::BangEqual => 12,
            TokenTypeView::Equal => 13,
            TokenTypeView::EqualEqual => 14,
            TokenTypeView::Greater => 15,
            TokenTypeView::GreaterEqual => 16,
            TokenTypeView::Less => 17,
            TokenTypeView::LessEqual => 18,
            TokenTypeView::Identifier(_) => 19,
            TokenTypeView::String(_) => 20,
            TokenTypeView::Number(_) => 21,
            TokenTypeView::And => 22,
            TokenTypeView::Class => 23,
            TokenTypeView::Else => 24,
            TokenTypeView::False => 25,
            TokenTypeView::Fun => 26,
            TokenTypeView::For => 27,
            TokenTypeView::If => 28,
            TokenTypeView::Nil => 29,
            TokenTypeView::Or => 30,
            TokenTypeView::Print => 31,
            TokenTypeView::Return => 32,
            TokenTypeView::Super => 33,
            TokenTypeView::This => 34,
            TokenTypeView::True => 35,
            TokenTypeView::Var => 36,
            TokenTypeView::While => 37,
            TokenTypeView::Eof => 38,
        }
    }

    /// Whether two token types are the same variant, payload ignored.
    pub open spec fn same_variant(self, other: TokenTypeView) -> bool {
        self.tag() == other.tag()
    }
}

impl TokenType {
    /// The position of the category in the closed set of categories.
    pub fn tag(&self) -> (r: u8)
        ensures
            r == self@.tag(),
    {
        match self {
            TokenType::LeftParen => 0,
            TokenType::RightParen => 1,
            TokenType::LeftBrace => 2,
            TokenType::RightBrace => 3,
            TokenType::Comma => 4,
            TokenType::Dot => 5,
            TokenType::Minus => 6,
            TokenType::Plus => 7,
            TokenType::Semicolon => 8,
            TokenType::Slash => 9,
            TokenType::Star => 10,
            TokenType::Bang => 11,
            TokenType::BangEqual => 12,
            TokenType::Equal => 13,
            TokenType::EqualEqual => 14,
            TokenType::Greater => 15,
            TokenType::GreaterEqual => 16,
            TokenType::Less => 17,
            TokenType::LessEqual => 18,
            TokenType::Identifier(_) => 19,
            TokenType::String(_) => 20,
            TokenType::Number(_) => 21,
            TokenType::And => 22,
            TokenType::Class => 23,
            TokenType::Else => 24,
            TokenType::False => 25,
            TokenType::Fun => 26,
            TokenType::For => 27,
            TokenType::If => 28,
            TokenType::Nil => 29,
            TokenType::Or => 30,
            TokenType::Print => 31,
            TokenType::Return => 32,
            TokenType::Super => 33,
            TokenType::This => 34,
            TokenType::True => 35,
            TokenType::Var => 36,
            TokenType::While => 37,
            TokenType::Eof => 38,
        }
    }

    /// Compares two token types by variant only: any identifier matches any
    /// other identifier, and likewise for strings and numbers.
    pub fn same_variant(&self, other: &TokenType) -> (r: bool)
        ensures
            r == self@.same_variant(other@),
    {
        self.tag() == other.tag()
    }

    /// Whether this is the end-of-input sentinel.
    pub fn is_eof(&self) -> (r: bool)
        ensures
            r == (self@ is Eof),
    {
        match self {
            TokenType::Eof => true,
            _ => false,
        }
    }
}

impl Clone for TokenType {
    fn clone(&self) -> (r: TokenType)
        ensures
            r@ == self@,
    {
        match self {
            TokenType::LeftParen => TokenType::LeftParen,
            TokenType::RightParen => TokenType::RightParen,
            TokenType::LeftBrace => TokenType::LeftBrace,
            TokenType::RightBrace => TokenType::RightBrace,
            TokenType::Comma => TokenType::Comma,
            TokenType::Dot => TokenType::Dot,
            TokenType::Minus => TokenType::Minus,
            TokenType::Plus => TokenType::Plus,
            TokenType::Semicolon => TokenType::Semicolon,
            TokenType::Slash => TokenType::Slash,
            TokenType::Star => TokenType::Star,
            TokenType::Bang => TokenType::Bang,
            TokenType::BangEqual => TokenType::BangEqual,
            TokenType::Equal => TokenType::Equal,
            TokenType::EqualEqual => TokenType::EqualEqual,
            TokenType::Greater => TokenType::Greater,
            TokenType::GreaterEqual => TokenType::GreaterEqual,
            TokenType::Less => TokenType::Less,
            TokenType::LessEqual => TokenType::LessEqual,
            TokenType::Identifier(text) => TokenType::Identifier(text.clone()),
            TokenType::String(text) => TokenType::String(text.clone()),
            TokenType::Number(text) => TokenType::Number(text.clone()),
            TokenType::And => TokenType::And,
            TokenType::Class => TokenType::Class,
            TokenType::Else => TokenType::Else,
            TokenType::False => TokenType::False,
            TokenType::Fun => TokenType::Fun,
            TokenType::For => TokenType::For,
            TokenType::If => TokenType::If,
            TokenType::Nil => TokenType::Nil,
            TokenType::Or => TokenType::Or,
            TokenType::Print => TokenType::Print,
            TokenType::Return => TokenType::Return,
            TokenType::Super => TokenType::Super,
            TokenType::This => TokenType::This,
            TokenType::True => TokenType::True,
            TokenType::Var => TokenType::Var,
            TokenType::While => TokenType::While,
            TokenType::Eof => TokenType::Eof,
        }
    }
}

/// A token: its category, the exact source text it was read from, and the
/// 1-based line on which it ended.
#[derive(Debug, PartialEq, Eq)]
pub struct Token {
    pub token_type: TokenType,
    pub lexeme: String,
    pub line: usize,
}

/// The mathematical model of a [`Token`].
pub struct TokenView {
    pub token_type: TokenTypeView,
    pub lexeme: Seq<char>,
    pub line: nat,
}

impl View for Token {
    type V = TokenView;

    open spec fn view(&self) -> TokenView {
        TokenView { token_type: self.token_type@, lexeme: self.lexeme@, line: self.line as nat }
    }
}

impl Token {
    /// A token of the given category, with its source text and line.
    pub fn new(token_type: TokenType, lexeme: String, line: usize) -> (r: Token)
        ensures
            r@ == (TokenView { token_type: token_type@, lexeme: lexeme@, line: line as nat }),
    {
        Token { token_type, lexeme, line }
    }
}

impl Clone for Token {
    fn clone(&self) -> (r: Token)
        ensures
            r@ == self@,
    {
        Token { token_type: self.token_type.clone(), lexeme: self.lexeme.clone(), line: self.line }
    }
}

/// The models of a sequence of tokens, in order.
pub open spec fn token_views(tokens: Seq<Token>) -> Seq<TokenView> {
    tokens.map_values(|t: Token| t@)
}

/// Copies a list of tokens.
pub fn clone_tokens(tokens: &Vec<Token>) -> (r: Vec<Token>)
    ensures
        token_views(r@) == token_views(tokens@),
{
    let mut out: Vec<Token> = Vec::new();
    let mut i: usize = 0;
    while i < tokens.len()
        invariant
            i <= tokens.len(),
            out.len() == i,
            forall|j: int| 0 <= j < i ==> out@[j]@ == tokens@[j]@,
        decreases tokens.len() - i,
    {
        out.push(tokens[i].clone());
        i += 1;
    }
    assert(token_views(out@) =~= token_views(tokens@));
    out
}

} // verus!
