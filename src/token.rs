use vstd::prelude::*;

use crate::span::Span;

verus! {

/// The lexeme classes of the language. Literal tokens carry their value;
/// a float literal is kept as its lexeme.
#[derive(Debug)]
pub enum TokenKind {
    At,
    Semicolon,
    Colon,
    OpenParen,
    CloseParen,
    OpenCurly,
    CloseCurly,
    OpenBracket,
    CloseBracket,
    Plus,
    PlusEq,
    Minus,
    MinusEq,
    Star,
    StarEq,
    FwSlash,
    FwSlashEq,
    Percent,
    PercentEq,
    QuestionMark,
    Comma,
    Amp,
    AmpEq,
    AmpAmp,
    AmpAmpEq,
    Bar,
    BarEq,
    BarBar,
    BarBarEq,
    Tilde,
    Caret,
    CaretEq,
    Bang,
    BangEq,
    Eq,
    EqEq,
    Lt,
    LtEq,
    LtLt,
    LtLtEq,
    Gt,
    GtEq,
    GtGt,
    GtGtEq,
    Dot,
    DotDot,
    RightArrow,
    If,
    Else,
    While,
    For,
    Break,
    Continue,
    Return,
    Defer,
    Let,
    Type,
    Fn,
    Foreign,
    Use,
    Pub,
    Mut,
    In,
    As,
    Union,
    Struct,
    Match,
    Placeholder,
    Ident(String),
    Nil,
    True,
    False,
    Int(u64),
    Float,
    Str(String),
    Char(char),
    /// A character that starts no token.
    Unknown(char),
    Eof,
}

/// A token: its class, its text and where it stands.
#[derive(Debug)]
pub struct Token {
    pub kind: TokenKind,
    pub lexeme: String,
    pub span: Span,
}

impl Token {
    pub fn new(kind: TokenKind, lexeme: String, span: Span) -> (r: Token)
        ensures
            r.kind == kind,
            r.lexeme == lexeme,
            r.span == span,
    {
        Token { kind, lexeme, span }
    }

    /// The name of an identifier token, or the text of a string token.
    pub fn symbol(&self) -> (r: String)
        requires
            self.kind is Ident || self.kind is Str,
        ensures
            self.kind matches TokenKind::Ident(name) ==> r == name,
            self.kind matches TokenKind::Str(text) ==> r == text,
    {
        match &self.kind {
            TokenKind::Ident(name) => name.clone(),
            TokenKind::Str(text) => text.clone(),
            _ => vstd::pervasive::unreached(),
        }
    }

    /// The name of an identifier token.
    pub fn into_id(&self) -> (r: String)
        requires
            self.kind is Ident,
        ensures
            self.kind matches TokenKind::Ident(name) && r == name,
    {
        match &self.kind {
            TokenKind::Ident(name) => name.clone(),
            _ => vstd::pervasive::unreached(),
        }
    }

    pub fn is_eof(&self) -> (r: bool)
        ensures
            r == (self.kind is Eof),
    {
        matches!(self.kind, TokenKind::Eof)
    }
}


/// How a token of class `kind` is written; for a class of many lexemes, a
/// description of it.
pub open spec fn kind_text(kind: TokenKind) -> Seq<char> {
    match kind {
        TokenKind::At => "@"@,
        TokenKind::Semicolon => ";"@,
        TokenKind::Colon => ":"@,
        TokenKind::OpenParen => "("@,
        TokenKind::CloseParen => ")"@,
        TokenKind::OpenCurly => "{"@,
        TokenKind::CloseCurly => "}"@,
        TokenKind::OpenBracket => "["@,
        TokenKind::CloseBracket => "]"@,
        TokenKind::Plus => "+"@,
        TokenKind::PlusEq => "+="@,
        TokenKind::Minus => "-"@,
        TokenKind::MinusEq => "-="@,
        TokenKind::Star => "*"@,
        TokenKind::StarEq => "*="@,
        TokenKind::FwSlash => "/"@,
        TokenKind::FwSlashEq => "/="@,
        TokenKind::Percent => "%"@,
        TokenKind::PercentEq => "%="@,
        TokenKind::QuestionMark => "?"@,
        TokenKind::Comma => ","@,
        TokenKind::Amp => "&"@,
        TokenKind::AmpEq => "&="@,
        TokenKind::AmpAmp => "&&"@,
        TokenKind::AmpAmpEq => "&&="@,
        TokenKind::Bar => "|"@,
        TokenKind::BarEq => "|="@,
        TokenKind::BarBar => "||"@,
        TokenKind::BarBarEq => "||="@,
        TokenKind::Tilde => "~"@,
        TokenKind::Caret => "^"@,
        TokenKind::CaretEq => "^="@,
        TokenKind::Bang => "!"@,
        TokenKind::BangEq => "!="@,
        TokenKind::Eq => "="@,
        TokenKind::EqEq => "=="@,
        TokenKind::Lt => "<"@,
        TokenKind::LtEq => "<="@,
        TokenKind::LtLt => "<<"@,
        TokenKind::LtLtEq => "<<="@,
        TokenKind::Gt => ">"@,
        TokenKind::GtEq => ">="@,
        TokenKind::GtGt => ">>"@,
        TokenKind::GtGtEq => ">>="@,
        TokenKind::Dot => "."@,
        TokenKind::DotDot => ".."@,
        TokenKind::RightArrow => "->"@,
        TokenKind::If => "if"@,
        TokenKind::Else => "else"@,
        TokenKind::While => "while"@,
        TokenKind::For => "for"@,
        TokenKind::Break => "break"@,
        TokenKind::Continue => "continue"@,
        TokenKind::Return => "return"@,
        TokenKind::Defer => "defer"@,
        TokenKind::Let => "let"@,
        TokenKind::Type => "type"@,
        TokenKind::Fn => "fn"@,
        TokenKind::Foreign => "foreign"@,
        TokenKind::Use => "use"@,
        TokenKind::Pub => "pub"@,
        TokenKind::Mut => "mut"@,
        TokenKind::In => "in"@,
        TokenKind::As => "as"@,
        TokenKind::Union => "union"@,
        TokenKind::Struct => "struct"@,
        TokenKind::Match => "match"@,
        TokenKind::Placeholder => "_"@,
        TokenKind::Ident(_) => "identifier"@,
        TokenKind::Nil => "nil"@,
        TokenKind::True => "true"@,
        TokenKind::False => "false"@,
        TokenKind::Int(_) => "{integer}"@,
        TokenKind::Float => "{float}"@,
        TokenKind::Str(_) => "{string}"@,
        TokenKind::Char(_) => "{char}"@,
        TokenKind::Unknown(_) => "???"@,
        TokenKind::Eof => "EOF"@,
    }
}

impl TokenKind {
    pub fn lexeme(&self) -> (r: &'static str)
        ensures
            r@ == kind_text(*self),
    {
        match self {
            TokenKind::At => "@",
            TokenKind::Semicolon => ";",
            TokenKind::Colon => ":",
            TokenKind::OpenParen => "(",
            TokenKind::CloseParen => ")",
            TokenKind::OpenCurly => "{",
            TokenKind::CloseCurly => "}",
            TokenKind::OpenBracket => "[",
            TokenKind::CloseBracket => "]",
            TokenKind::Plus => "+",
            TokenKind::PlusEq => "+=",
            TokenKind::Minus => "-",
            TokenKind::MinusEq => "-=",
            TokenKind::Star => "*",
            TokenKind::StarEq => "*=",
            TokenKind::FwSlash => "/",
            TokenKind::FwSlashEq => "/=",
            TokenKind::Percent => "%",
            TokenKind::PercentEq => "%=",
            TokenKind::QuestionMark => "?",
            TokenKind::Comma => ",",
            TokenKind::Amp => "&",
            TokenKind::AmpEq => "&=",
            TokenKind::AmpAmp => "&&",
            TokenKind::AmpAmpEq => "&&=",
            TokenKind::Bar => "|",
            TokenKind::BarEq => "|=",
            TokenKind::BarBar => "||",
            TokenKind::BarBarEq => "||=",
            TokenKind::Tilde => "~",
            TokenKind::Caret => "^",
            TokenKind::CaretEq => "^=",
            TokenKind::Bang => "!",
            TokenKind::BangEq => "!=",
            TokenKind::Eq => "=",
            TokenKind::EqEq => "==",
            TokenKind::Lt => "<",
            TokenKind::LtEq => "<=",
            TokenKind::LtLt => "<<",
            TokenKind::LtLtEq => "<<=",
            TokenKind::Gt => ">",
            TokenKind::GtEq => ">=",
            TokenKind::GtGt => ">>",
            TokenKind::GtGtEq => ">>=",
            TokenKind::Dot => ".",
            TokenKind::DotDot => "..",
            TokenKind::RightArrow => "->",
            TokenKind::If => "if",
            TokenKind::Else => "else",
            TokenKind::While => "while",
            TokenKind::For => "for",
            TokenKind::Break => "break",
            TokenKind::Continue => "continue",
            TokenKind::Return => "return",
            TokenKind::Defer => "defer",
            TokenKind::Let => "let",
            TokenKind::Type => "type",
            TokenKind::Fn => "fn",
            TokenKind::Foreign => "foreign",
            TokenKind::Use => "use",
            TokenKind::Pub => "pub",
            TokenKind::Mut => "mut",
            TokenKind::In => "in",
            TokenKind::As => "as",
            TokenKind::Union => "union",
            TokenKind::Struct => "struct",
            TokenKind::Match => "match",
            TokenKind::Placeholder => "_",
            TokenKind::Ident(_) => "identifier",
            TokenKind::Nil => "nil",
            TokenKind::True => "true",
            TokenKind::False => "false",
            TokenKind::Int(_) => "{integer}",
            TokenKind::Float => "{float}",
            TokenKind::Str(_) => "{string}",
            TokenKind::Char(_) => "{char}",
            TokenKind::Unknown(_) => "???",
            TokenKind::Eof => "EOF",
        }
    }
}

} // verus!
