//! Tokens: the units the tokenizer cuts a source text into.

use vstd::prelude::*;
use vstd::std_specs::cmp::PartialEqSpecImpl;

verus! {

/// What a [`TokenType`] stands for, with its text as a sequence of
/// characters.
pub enum TokenKind {
    /// A run of letters and underscores that is not a keyword.
    Ident(Seq<char>),
    /// A run of decimal digits, kept as written.
    Number(Seq<char>),
    /// The characters between two double quotes.
    Str(Seq<char>),
    /// The text of a comment, without the `#` that opens it.
    Comment(Seq<char>),
    /// A run of operator symbols.
    Operator(Seq<char>),
    LParen,
    RParen,
    LBracket,
    Colon,
    Comma,
    RBracket,
    If,
    Else,
    Assign,
    In,
    Pipe,
    Space,
    Tab,
    Newline,
}

/// The kind of a token. A number carries the digits it was written with;
/// what value they denote is for the consumer of the tokens to say.
#[derive(Debug)]
pub enum TokenType {
    Ident(String),
    Number(String),
    Str(String),
    Comment(String),
    Operator(String),
    LParen,
    RParen,
    LBracket,
    Colon,
    Comma,
    RBracket,
    If,
    Else,
    Assign,
    In,
    Pipe,
    Space,
    Tab,
    Newline,
}

impl View for TokenType {
    type V = TokenKind;

    open spec fn view(&self) -> TokenKind {
        match self {
            TokenType::Ident(s) => TokenKind::Ident(s@),
            TokenType::Number(s) => TokenKind::Number(s@),
            TokenType::Str(s) => TokenKind::Str(s@),
            TokenType::Comment(s) => TokenKind::Comment(s@),
            TokenType::Operator(s) => TokenKind::Operator(s@),
            TokenType::LParen => TokenKind::LParen,
            TokenType::RParen => TokenKind::RParen,
            TokenType::LBracket => TokenKind::LBracket,
            TokenType::Colon => TokenKind::Colon,
            TokenType::Comma => TokenKind::Comma,
            TokenType::RBracket => TokenKind::RBracket,
            TokenType::If => TokenKind::If,
            TokenType::Else => TokenKind::Else,
            TokenType::Assign => TokenKind::Assign,
            TokenType::In => TokenKind::In,
            TokenType::Pipe => TokenKind::Pipe,
            TokenType::Space => TokenKind::Space,
            TokenType::Tab => TokenKind::Tab,
            TokenType::Newline => TokenKind::Newline,
        }
    }
}

/// The text a token kind is shown as in messages: the carried text for the
/// kinds that have one, the spelling for the fixed ones. A tab is shown as
/// four spaces.
pub open spec fn token_text(kind: TokenKind) -> Seq<char> {
    match kind {
        TokenKind::Ident(s) => s,
        TokenKind::Number(s) => s,
        TokenKind::Str(s) => s,
        TokenKind::Comment(s) => s,
        TokenKind::Operator(s) => s,
        TokenKind::LParen => "("@,
        TokenKind::RParen => ")"@,
        TokenKind::LBracket => "["@,
        TokenKind::Colon => ":"@,
        TokenKind::Comma => ","@,
        TokenKind::RBracket => "]"@,
        TokenKind::If => "if"@,
        TokenKind::Else => "else"@,
        TokenKind::Assign => ":="@,
        TokenKind::In => "in"@,
        TokenKind::Pipe => "|"@,
        TokenKind::Space => " "@,
        TokenKind::Tab => "    "@,
        TokenKind::Newline => "\n"@,
    }
}

impl TokenType {
    /// The text this kind is shown as in messages.
    pub fn to_text(&self) -> (r: String)
        ensures
            r@ == token_text(self@),
    {
        match self {
            TokenType::Ident(s) => s.clone(),
            TokenType::Number(s) => s.clone(),
            TokenType::Str(s) => s.clone(),
            TokenType::Comment(s) => s.clone(),
            TokenType::Operator(s) => s.clone(),
            TokenType::LParen => "(".to_owned(),
            TokenType::RParen => ")".to_owned(),
            TokenType::LBracket => "[".to_owned(),
            TokenType::Colon => ":".to_owned(),
            TokenType::Comma => ",".to_owned(),
            TokenType::RBracket => "]".to_owned(),
            TokenType::If => "if".to_owned(),
            TokenType::Else => "else".to_owned(),
            TokenType::Assign => ":=".to_owned(),
            TokenType::In => "in".to_owned(),
            TokenType::Pipe => "|".to_owned(),
            TokenType::Space => " ".to_owned(),
            TokenType::Tab => "    ".to_owned(),
            TokenType::Newline => "\n".to_owned(),
        }
    }
}

impl Clone for TokenType {
    fn clone(&self) -> (r: TokenType)
        ensures
            r@ == self@,
    {
        match self {
            TokenType::Ident(s) => TokenType::Ident(s.clone()),
            TokenType::Number(s) => TokenType::Number(s.clone()),
            TokenType::Str(s) => TokenType::Str(s.clone()),
            TokenType::Comment(s) => TokenType::Comment(s.clone()),
            TokenType::Operator(s) => TokenType::Operator(s.clone()),
            TokenType::LParen => TokenType::LParen,
            TokenType::RParen => TokenType::RParen,
            TokenType::LBracket => TokenType::LBracket,
            TokenType::Colon => TokenType::Colon,
            TokenType::Comma => TokenType::Comma,
            TokenType::RBracket => TokenType::RBracket,
            TokenType::If => TokenType::If,
            TokenType::Else => TokenType::Else,
            TokenType::Assign => TokenType::Assign,
            TokenType::In => TokenType::In,
            TokenType::Pipe => TokenType::Pipe,
            TokenType::Space => TokenType::Space,
            TokenType::Tab => TokenType::Tab,
            TokenType::Newline => TokenType::Newline,
        }
    }
}

impl PartialEq for TokenType {
    fn eq(&self, other: &TokenType) -> (r: bool) {
        match self {
            TokenType::Ident(a) => match other {
                TokenType::Ident(b) => *a == *b,
                _ => false,
            },
            TokenType::Number(a) => match other {
                TokenType::Number(b) => *a == *b,
                _ => false,
            },
            TokenType::Str(a) => match other {
                TokenType::Str(b) => *a == *b,
                _ => false,
            },
            TokenType::Comment(a) => match other {
                TokenType::Comment(b) => *a == *b,
                _ => false,
            },
            TokenType::Operator(a) => match other {
                TokenType::Operator(b) => *a == *b,
                _ => false,
            },
            TokenType::LParen => matches!(other, TokenType::LParen),
            TokenType::RParen => matches!(other, TokenType::RParen),
            TokenType::LBracket => matches!(other, TokenType::LBracket),
            TokenType::Colon => matches!(other, TokenType::Colon),
            TokenType::Comma => matches!(other, TokenType::Comma),
            TokenType::RBracket => matches!(other, TokenType::RBracket),
            TokenType::If => matches!(other, TokenType::If),
            TokenType::Else => matches!(other, TokenType::Else),
            TokenType::Assign => matches!(other, TokenType::Assign),
            TokenType::In => matches!(other, TokenType::In),
            TokenType::Pipe => matches!(other, TokenType::Pipe),
            TokenType::Space => matches!(other, TokenType::Space),
            TokenType::Tab => matches!(other, TokenType::Tab),
            TokenType::Newline => matches!(other, TokenType::Newline),
        }
    }
}

impl PartialEqSpecImpl for TokenType {
    open spec fn obeys_eq_spec() -> bool {
        true
    }

    open spec fn eq_spec(&self, other: &TokenType) -> bool {
        self@ == other@
    }
}

/// What a [`Token`] stands for: its kind and the byte offset of its first
/// character in the source.
pub struct TokenView {
    pub kind: TokenKind,
    pub offset: nat,
}

/// A token: a kind, and the byte offset in the source of the first character
/// scanned for it. Two tokens are equal when their kinds are; the offset is
/// carried along for diagnostics.
#[derive(Debug)]
pub struct Token {
    token_type: TokenType,
    position: usize,
}

impl View for Token {
    type V = TokenView;

    closed spec fn view(&self) -> TokenView {
        TokenView { kind: self.token_type@, offset: self.position as nat }
    }
}

/// The tokens that a list of [`Token`] values stands for, in order.
pub open spec fn token_views(tokens: Seq<Token>) -> Seq<TokenView> {
    tokens.map_values(|t: Token| t@)
}

impl Token {
    pub fn new(token_type: TokenType, position: usize) -> (r: Token)
        ensures
            r@ == (TokenView { kind: token_type@, offset: position as nat }),
    {
        Token { token_type: token_type, position: position }
    }

    /// The kind of the token.
    pub fn token_type(&self) -> (r: &TokenType)
        ensures
            r@ == self@.kind,
    {
        &self.token_type
    }

    /// The byte offset of the token's first character.
    pub fn position(&self) -> (r: usize)
        ensures
            r == self@.offset,
    {
        self.position
    }
}

impl Clone for Token {
    fn clone(&self) -> (r: Token)
        ensures
            r@ == self@,
    {
        Token { token_type: self.token_type.clone(), position: self.position }
    }
}

impl PartialEq for Token {
    fn eq(&self, other: &Token) -> (r: bool) {
        self.token_type == other.token_type
    }
}

impl PartialEqSpecImpl for Token {
    open spec fn obeys_eq_spec() -> bool {
        true
    }

    open spec fn eq_spec(&self, other: &Token) -> bool {
        self@.kind == other@.kind
    }
}

} // verus!
