//! Tokens of the language.

use vstd::prelude::*;

verus! {

/// What a token is.
#[derive(Debug, Clone, PartialEq, Eq)]
pub enum TokenKind {
    Data,
    Fn,
    Parallel,
    /// The keyword `seq`.
    Sequential,
    Gpu,
    Asm,
    Reduce,
    If,
    Else,
    For,
    Return,
    I32,
    I64,
    F32,
    F64,
    Bool,
    Ident(String),
    IntLit(i64),
    /// A float literal, as written: digits, a point, digits.
    FloatLit(String),
    BoolLit(bool),
    StringLit(String),
    Plus,
    Minus,
    Star,
    Slash,
    Percent,
    Eq,
    EqEq,
    NotEq,
    Lt,
    Gt,
    LtEq,
    GtEq,
    And,
    Or,
    Not,
    LParen,
    RParen,
    LBrace,
    RBrace,
    LBracket,
    RBracket,
    Comma,
    Colon,
    Semi,
    Arrow,
    Newline,
    Eof,
}

/// Model of [`TokenKind`].
pub enum TokenKindView {
    Data,
    Fn,
    Parallel,
    Sequential,
    Gpu,
    Asm,
    Reduce,
    If,
    Else,
    For,
    Return,
    I32,
    I64,
    F32,
    F64,
    Bool,
    Ident(Seq<char>),
    IntLit(i64),
    FloatLit(Seq<char>),
    BoolLit(bool),
    StringLit(Seq<char>),
    Plus,
    Minus,
    Star,
    Slash,
    Percent,
    Eq,
    EqEq,
    NotEq,
    Lt,
    Gt,
    LtEq,
    GtEq,
    And,
    Or,
    Not,
    LParen,
    RParen,
    LBrace,
    RBrace,
    LBracket,
    RBracket,
    Comma,
    Colon,
    Semi,
    Arrow,
    Newline,
    Eof,
}

/// What a token is, without what it carries.
#[derive(Debug, Clone, Copy, PartialEq, Eq, Structural)]
pub enum TokenTag {
    Data,
    Fn,
    Parallel,
    Sequential,
    Gpu,
    Asm,
    Reduce,
    If,
    Else,
    For,
    Return,
    I32,
    I64,
    F32,
    F64,
    Bool,
    Ident,
    IntLit,
    FloatLit,
    BoolLit,
    StringLit,
    Plus,
    Minus,
    Star,
    Slash,
    Percent,
    Eq,
    EqEq,
    NotEq,
    Lt,
    Gt,
    LtEq,
    GtEq,
    And,
    Or,
    Not,
    LParen,
    RParen,
    LBrace,
    RBrace,
    LBracket,
    RBracket,
    Comma,
    Colon,
    Semi,
    Arrow,
    Newline,
    Eof,
}

impl View for TokenKind {
    type V = TokenKindView;

    open spec fn view(&self) -> TokenKindView {
        match *self {
            TokenKind::Data => TokenKindView::Data,
            TokenKind::Fn => TokenKindView::Fn,
            TokenKind::Parallel => TokenKindView::Parallel,
            TokenKind::Sequential => TokenKindView::Sequential,
            TokenKind::Gpu => TokenKindView::Gpu,
            TokenKind::Asm => TokenKindView::Asm,
            TokenKind::Reduce => TokenKindView::Reduce,
            TokenKind::If => TokenKindView::If,
            TokenKind::Else => TokenKindView::Else,
            TokenKind::For => TokenKindView::For,
            TokenKind::Return => TokenKindView::Return,
            TokenKind::I32 => TokenKindView::I32,
            TokenKind::I64 => TokenKindView::I64,
            TokenKind::F32 => TokenKindView::F32,
            TokenKind::F64 => TokenKindView::F64,
            TokenKind::Bool => TokenKindView::Bool,
            TokenKind::Ident(s) => TokenKindView::Ident(s@),
            TokenKind::IntLit(n) => TokenKindView::IntLit(n),
            TokenKind::FloatLit(s) => TokenKindView::FloatLit(s@),
            TokenKind::BoolLit(b) => TokenKindView::BoolLit(b),
            TokenKind::StringLit(s) => TokenKindView::StringLit(s@),
            TokenKind::Plus => TokenKindView::Plus,
            TokenKind::Minus => TokenKindView::Minus,
            TokenKind::Star => TokenKindView::Star,
            TokenKind::Slash => TokenKindView::Slash,
            TokenKind::Percent => TokenKindView::Percent,
            TokenKind::Eq => TokenKindView::Eq,
            TokenKind::EqEq => TokenKindView::EqEq,
            TokenKind::NotEq => TokenKindView::NotEq,
            TokenKind::Lt => TokenKindView::Lt,
            TokenKind::Gt => TokenKindView::Gt,
            TokenKind::LtEq => TokenKindView::LtEq,
            TokenKind::GtEq => TokenKindView::GtEq,
            TokenKind::And => TokenKindView::And,
            TokenKind::Or => TokenKindView::Or,
            TokenKind::Not => TokenKindView::Not,
            TokenKind::LParen => TokenKindView::LParen,
            TokenKind::RParen => TokenKindView::RParen,
            TokenKind::LBrace => TokenKindView::LBrace,
            TokenKind::RBrace => TokenKindView::RBrace,
            TokenKind::LBracket => TokenKindView::LBracket,
            TokenKind::RBracket => TokenKindView::RBracket,
            TokenKind::Comma => TokenKindView::Comma,
            TokenKind::Colon => TokenKindView::Colon,
            TokenKind::Semi => TokenKindView::Semi,
            TokenKind::Arrow => TokenKindView::Arrow,
            TokenKind::Newline => TokenKindView::Newline,
            TokenKind::Eof => TokenKindView::Eof,
        }
    }
}

impl TokenKindView {
    /// The tag of this kind.
    pub open spec fn tag(self) -> TokenTag {
        match self {
            TokenKindView::Data => TokenTag::Data,
            TokenKindView::Fn => TokenTag::Fn,
            TokenKindView::Parallel => TokenTag::Parallel,
            TokenKindView::Sequential => TokenTag::Sequential,
            TokenKindView::Gpu => TokenTag::Gpu,
            TokenKindView::Asm => TokenTag::Asm,
            TokenKindView::Reduce => TokenTag::Reduce,
            TokenKindView::If => TokenTag::If,
            TokenKindView::Else => TokenTag::Else,
            TokenKindView::For => TokenTag::For,
            TokenKindView::Return => TokenTag::Return,
            TokenKindView::I32 => TokenTag::I32,
            TokenKindView::I64 => TokenTag::I64,
            TokenKindView::F32 => TokenTag::F32,
            TokenKindView::F64 => TokenTag::F64,
            TokenKindView::Bool => TokenTag::Bool,
            TokenKindView::Ident(_) => TokenTag::Ident,
            TokenKindView::IntLit(_) => TokenTag::IntLit,
            TokenKindView::FloatLit(_) => TokenTag::FloatLit,
            TokenKindView::BoolLit(_) => TokenTag::BoolLit,
            TokenKindView::StringLit(_) => TokenTag::StringLit,
            TokenKindView::Plus => TokenTag::Plus,
            TokenKindView::Minus => TokenTag::Minus,
            TokenKindView::Star => TokenTag::Star,
            TokenKindView::Slash => TokenTag::Slash,
            TokenKindView::Percent => TokenTag::Percent,
            TokenKindView::Eq => TokenTag::Eq,
            TokenKindView::EqEq => TokenTag::EqEq,
            TokenKindView::NotEq => TokenTag::NotEq,
            TokenKindView::Lt => TokenTag::Lt,
            TokenKindView::Gt => TokenTag::Gt,
            TokenKindView::LtEq => TokenTag::LtEq,
            TokenKindView::GtEq => TokenTag::GtEq,
            TokenKindView::And => TokenTag::And,
            TokenKindView::Or => TokenTag::Or,
            TokenKindView::Not => TokenTag::Not,
            TokenKindView::LParen => TokenTag::LParen,
            TokenKindView::RParen => TokenTag::RParen,
            TokenKindView::LBrace => TokenTag::LBrace,
            TokenKindView::RBrace => TokenTag::RBrace,
            TokenKindView::LBracket => TokenTag::LBracket,
            TokenKindView::RBracket => TokenTag::RBracket,
            TokenKindView::Comma => TokenTag::Comma,
            TokenKindView::Colon => TokenTag::Colon,
            TokenKindView::Semi => TokenTag::Semi,
            TokenKindView::Arrow => TokenTag::Arrow,
            TokenKindView::Newline => TokenTag::Newline,
            TokenKindView::Eof => TokenTag::Eof,
        }
    }
}

impl TokenKind {
    /// The tag of this kind.
    pub fn tag(&self) -> (r: TokenTag)
        ensures
            r == self@.tag(),
    {
        match self {
            TokenKind::Data => TokenTag::Data,
            TokenKind::Fn => TokenTag::Fn,
            TokenKind::Parallel => TokenTag::Parallel,
            TokenKind::Sequential => TokenTag::Sequential,
            TokenKind::Gpu => TokenTag::Gpu,
            TokenKind::Asm => TokenTag::Asm,
            TokenKind::Reduce => TokenTag::Reduce,
            TokenKind::If => TokenTag::If,
            TokenKind::Else => TokenTag::Else,
            TokenKind::For => TokenTag::For,
            TokenKind::Return => TokenTag::Return,
            TokenKind::I32 => TokenTag::I32,
            TokenKind::I64 => TokenTag::I64,
            TokenKind::F32 => TokenTag::F32,
            TokenKind::F64 => TokenTag::F64,
            TokenKind::Bool => TokenTag::Bool,
            TokenKind::Ident(_) => TokenTag::Ident,
            TokenKind::IntLit(_) => TokenTag::IntLit,
            TokenKind::FloatLit(_) => TokenTag::FloatLit,
            TokenKind::BoolLit(_) => TokenTag::BoolLit,
            TokenKind::StringLit(_) => TokenTag::StringLit,
            TokenKind::Plus => TokenTag::Plus,
            TokenKind::Minus => TokenTag::Minus,
            TokenKind::Star => TokenTag::Star,
            TokenKind::Slash => TokenTag::Slash,
            TokenKind::Percent => TokenTag::Percent,
            TokenKind::Eq => TokenTag::Eq,
            TokenKind::EqEq => TokenTag::EqEq,
            TokenKind::NotEq => TokenTag::NotEq,
            TokenKind::Lt => TokenTag::Lt,
            TokenKind::Gt => TokenTag::Gt,
            TokenKind::LtEq => TokenTag::LtEq,
            TokenKind::GtEq => TokenTag::GtEq,
            TokenKind::And => TokenTag::And,
            TokenKind::Or => TokenTag::Or,
            TokenKind::Not => TokenTag::Not,
            TokenKind::LParen => TokenTag::LParen,
            TokenKind::RParen => TokenTag::RParen,
            TokenKind::LBrace => TokenTag::LBrace,
            TokenKind::RBrace => TokenTag::RBrace,
            TokenKind::LBracket => TokenTag::LBracket,
            TokenKind::RBracket => TokenTag::RBracket,
            TokenKind::Comma => TokenTag::Comma,
            TokenKind::Colon => TokenTag::Colon,
            TokenKind::Semi => TokenTag::Semi,
            TokenKind::Arrow => TokenTag::Arrow,
            TokenKind::Newline => TokenTag::Newline,
            TokenKind::Eof => TokenTag::Eof,
        }
    }
}

/// The name of a tag, as it stands in messages.
pub open spec fn tag_name(tag: TokenTag) -> Seq<char> {
    match tag {
        TokenTag::Data => "Data"@,
        TokenTag::Fn => "Fn"@,
        TokenTag::Parallel => "Parallel"@,
        TokenTag::Sequential => "Seq"@,
        TokenTag::Gpu => "Gpu"@,
        TokenTag::Asm => "Asm"@,
        TokenTag::Reduce => "Reduce"@,
        TokenTag::If => "If"@,
        TokenTag::Else => "Else"@,
        TokenTag::For => "For"@,
        TokenTag::Return => "Return"@,
        TokenTag::I32 => "I32"@,
        TokenTag::I64 => "I64"@,
        TokenTag::F32 => "F32"@,
        TokenTag::F64 => "F64"@,
        TokenTag::Bool => "Bool"@,
        TokenTag::Ident => "Ident"@,
        TokenTag::IntLit => "IntLit"@,
        TokenTag::FloatLit => "FloatLit"@,
        TokenTag::BoolLit => "BoolLit"@,
        TokenTag::StringLit => "StringLit"@,
        TokenTag::Plus => "Plus"@,
        TokenTag::Minus => "Minus"@,
        TokenTag::Star => "Star"@,
        TokenTag::Slash => "Slash"@,
        TokenTag::Percent => "Percent"@,
        TokenTag::Eq => "Eq"@,
        TokenTag::EqEq => "EqEq"@,
        TokenTag::NotEq => "NotEq"@,
        TokenTag::Lt => "Lt"@,
        TokenTag::Gt => "Gt"@,
        TokenTag::LtEq => "LtEq"@,
        TokenTag::GtEq => "GtEq"@,
        TokenTag::And => "And"@,
        TokenTag::Or => "Or"@,
        TokenTag::Not => "Not"@,
        TokenTag::LParen => "LParen"@,
        TokenTag::RParen => "RParen"@,
        TokenTag::LBrace => "LBrace"@,
        TokenTag::RBrace => "RBrace"@,
        TokenTag::LBracket => "LBracket"@,
        TokenTag::RBracket => "RBracket"@,
        TokenTag::Comma => "Comma"@,
        TokenTag::Colon => "Colon"@,
        TokenTag::Semi => "Semi"@,
        TokenTag::Arrow => "Arrow"@,
        TokenTag::Newline => "Newline"@,
        TokenTag::Eof => "Eof"@,
    }
}

impl TokenTag {
    /// The name of this tag, as it stands in messages.
    pub fn name(&self) -> (r: &'static str)
        ensures
            r@ == tag_name(*self),
    {
        match self {
            TokenTag::Data => "Data",
            TokenTag::Fn => "Fn",
            TokenTag::Parallel => "Parallel",
            TokenTag::Sequential => "Seq",
            TokenTag::Gpu => "Gpu",
            TokenTag::Asm => "Asm",
            TokenTag::Reduce => "Reduce",
            TokenTag::If => "If",
            TokenTag::Else => "Else",
            TokenTag::For => "For",
            TokenTag::Return => "Return",
            TokenTag::I32 => "I32",
            TokenTag::I64 => "I64",
            TokenTag::F32 => "F32",
            TokenTag::F64 => "F64",
            TokenTag::Bool => "Bool",
            TokenTag::Ident => "Ident",
            TokenTag::IntLit => "IntLit",
            TokenTag::FloatLit => "FloatLit",
            TokenTag::BoolLit => "BoolLit",
            TokenTag::StringLit => "StringLit",
            TokenTag::Plus => "Plus",
            TokenTag::Minus => "Minus",
            TokenTag::Star => "Star",
            TokenTag::Slash => "Slash",
            TokenTag::Percent => "Percent",
            TokenTag::Eq => "Eq",
            TokenTag::EqEq => "EqEq",
            TokenTag::NotEq => "NotEq",
            TokenTag::Lt => "Lt",
            TokenTag::Gt => "Gt",
            TokenTag::LtEq => "LtEq",
            TokenTag::GtEq => "GtEq",
            TokenTag::And => "And",
            TokenTag::Or => "Or",
            TokenTag::Not => "Not",
            TokenTag::LParen => "LParen",
            TokenTag::RParen => "RParen",
            TokenTag::LBrace => "LBrace",
            TokenTag::RBrace => "RBrace",
            TokenTag::LBracket => "LBracket",
            TokenTag::RBracket => "RBracket",
            TokenTag::Comma => "Comma",
            TokenTag::Colon => "Colon",
            TokenTag::Semi => "Semi",
            TokenTag::Arrow => "Arrow",
            TokenTag::Newline => "Newline",
            TokenTag::Eof => "Eof",
        }
    }
}

/// A token with the place where it starts. Lines and columns count from 1.
#[derive(Debug, Clone, PartialEq, Eq)]
pub struct Token {
    pub kind: TokenKind,
    pub line: usize,
    pub col: usize,
}

/// Model of [`Token`].
pub struct TokenView {
    pub kind: TokenKindView,
    pub line: usize,
    pub col: usize,
}

impl View for Token {
    type V = TokenView;

    open spec fn view(&self) -> TokenView {
        TokenView { kind: self.kind@, line: self.line, col: self.col }
    }
}

/// The models of a list of tokens, in order.
pub open spec fn tokens_view(ts: Seq<Token>) -> Seq<TokenView> {
    Seq::new(ts.len(), |i: int| ts[i]@)
}

} // verus!
