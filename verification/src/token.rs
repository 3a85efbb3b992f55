//! Tokens.

use vstd::prelude::*;

verus! {

/// A token of the source.
#[derive(Debug, PartialEq, Eq)]
pub enum Token {
    Var,
    Def,
    Struct,
    Trait,
    Comptime,
    If,
    Elif,
    Else,
    While,
    For,
    In,
    With,
    Try,
    Except,
    Finally,
    Return,
    Raise,
    Raises,
    Import,
    From,
    As,
    Pass,
    Break,
    Continue,
    And,
    Or,
    Not,
    Identifier(String),
    IntLiteral(i64),
    BoolLiteral(bool),
    StringLiteral(String),
    TripleStringLiteral(String),
    Assign,
    Plus,
    Minus,
    Star,
    Slash,
    DoubleSlash,
    Percent,
    DoubleStar,
    At,
    Amp,
    Pipe,
    Caret,
    PlusEq,
    MinusEq,
    StarEq,
    SlashEq,
    DoubleSlashEq,
    PercentEq,
    DoubleStarEq,
    AmpEq,
    PipeEq,
    CaretEq,
    EqEq,
    NotEq,
    Less,
    Greater,
    LessEq,
    GreaterEq,
    Colon,
    Semicolon,
    Comma,
    Dot,
    Ellipsis,
    Arrow,
    LParen,
    RParen,
    LBracket,
    RBracket,
    LBrace,
    RBrace,
    /// The end of a logical line.
    Newline,
    Indent,
    Dedent,
    Eof,
}

/// Mathematical model of [`Token`].
#[verifier::ext_equal]
pub enum TokenModel {
    Var,
    Def,
    Struct,
    Trait,
    Comptime,
    If,
    Elif,
    Else,
    While,
    For,
    In,
    With,
    Try,
    Except,
    Finally,
    Return,
    Raise,
    Raises,
    Import,
    From,
    As,
    Pass,
    Break,
    Continue,
    And,
    Or,
    Not,
    Identifier(Seq<char>),
    IntLiteral(i64),
    BoolLiteral(bool),
    StringLiteral(Seq<char>),
    TripleStringLiteral(Seq<char>),
    Assign,
    Plus,
    Minus,
    Star,
    Slash,
    DoubleSlash,
    Percent,
    DoubleStar,
    At,
    Amp,
    Pipe,
    Caret,
    PlusEq,
    MinusEq,
    StarEq,
    SlashEq,
    DoubleSlashEq,
    PercentEq,
    DoubleStarEq,
    AmpEq,
    PipeEq,
    CaretEq,
    EqEq,
    NotEq,
    Less,
    Greater,
    LessEq,
    GreaterEq,
    Colon,
    Semicolon,
    Comma,
    Dot,
    Ellipsis,
    Arrow,
    LParen,
    RParen,
    LBracket,
    RBracket,
    LBrace,
    RBrace,
    Newline,
    Indent,
    Dedent,
    Eof,
}

/// What a lexer could not read.
#[derive(Debug, PartialEq, Eq)]
pub struct LexError {
    pub message: String,
}

/// Mathematical model of [`LexError`].
#[verifier::ext_equal]
pub struct LexErrorModel {
    pub message: Seq<char>,
}

/// The model of a [`Token`].
pub open spec fn token_view(x: Token) -> TokenModel
    decreases x,
{
    match x {
        Token::Var => TokenModel::Var,
        Token::Def => TokenModel::Def,
        Token::Struct => TokenModel::Struct,
        Token::Trait => TokenModel::Trait,
        Token::Comptime => TokenModel::Comptime,
        Token::If => TokenModel::If,
        Token::Elif => TokenModel::Elif,
        Token::Else => TokenModel::Else,
        Token::While => TokenModel::While,
        Token::For => TokenModel::For,
        Token::In => TokenModel::In,
        Token::With => TokenModel::With,
        Token::Try => TokenModel::Try,
        Token::Except => TokenModel::Except,
        Token::Finally => TokenModel::Finally,
        Token::Return => TokenModel::Return,
        Token::Raise => TokenModel::Raise,
        Token::Raises => TokenModel::Raises,
        Token::Import => TokenModel::Import,
        Token::From => TokenModel::From,
        Token::As => TokenModel::As,
        Token::Pass => TokenModel::Pass,
        Token::Break => TokenModel::Break,
        Token::Continue => TokenModel::Continue,
        Token::And => TokenModel::And,
        Token::Or => TokenModel::Or,
        Token::Not => TokenModel::Not,
        Token::Identifier(a0) => TokenModel::Identifier(a0@),
        Token::IntLiteral(a0) => TokenModel::IntLiteral(a0),
        Token::BoolLiteral(a0) => TokenModel::BoolLiteral(a0),
        Token::StringLiteral(a0) => TokenModel::StringLiteral(a0@),
        Token::TripleStringLiteral(a0) => TokenModel::TripleStringLiteral(a0@),
        Token::Assign => TokenModel::Assign,
        Token::Plus => TokenModel::Plus,
        Token::Minus => TokenModel::Minus,
        Token::Star => TokenModel::Star,
        Token::Slash => TokenModel::Slash,
        Token::DoubleSlash => TokenModel::DoubleSlash,
        Token::Percent => TokenModel::Percent,
        Token::DoubleStar => TokenModel::DoubleStar,
        Token::At => TokenModel::At,
        Token::Amp => TokenModel::Amp,
        Token::Pipe => TokenModel::Pipe,
        Token::Caret => TokenModel::Caret,
        Token::PlusEq => TokenModel::PlusEq,
        Token::MinusEq => TokenModel::MinusEq,
        Token::StarEq => TokenModel::StarEq,
        Token::SlashEq => TokenModel::SlashEq,
        Token::DoubleSlashEq => TokenModel::DoubleSlashEq,
        Token::PercentEq => TokenModel::PercentEq,
        Token::DoubleStarEq => TokenModel::DoubleStarEq,
        Token::AmpEq => TokenModel::AmpEq,
        Token::PipeEq => TokenModel::PipeEq,
        Token::CaretEq => TokenModel::CaretEq,
        Token::EqEq => TokenModel::EqEq,
        Token::NotEq => TokenModel::NotEq,
        Token::Less => TokenModel::Less,
        Token::Greater => TokenModel::Greater,
        Token::LessEq => TokenModel::LessEq,
        Token::GreaterEq => TokenModel::GreaterEq,
        Token::Colon => TokenModel::Colon,
        Token::Semicolon => TokenModel::Semicolon,
        Token::Comma => TokenModel::Comma,
        Token::Dot => TokenModel::Dot,
        Token::Ellipsis => TokenModel::Ellipsis,
        Token::Arrow => TokenModel::Arrow,
        Token::LParen => TokenModel::LParen,
        Token::RParen => TokenModel::RParen,
        Token::LBracket => TokenModel::LBracket,
        Token::RBracket => TokenModel::RBracket,
        Token::LBrace => TokenModel::LBrace,
        Token::RBrace => TokenModel::RBrace,
        Token::Newline => TokenModel::Newline,
        Token::Indent => TokenModel::Indent,
        Token::Dedent => TokenModel::Dedent,
        Token::Eof => TokenModel::Eof,
    }
}

impl View for Token {
    type V = TokenModel;

    open spec fn view(&self) -> TokenModel {
        token_view(*self)
    }
}

impl Token {
    /// A structural copy.
    pub fn copy(&self) -> (r: Token)
        ensures
            r@ == self@,
        decreases self,
    {
        match self {
            Token::Var => Token::Var,
            Token::Def => Token::Def,
            Token::Struct => Token::Struct,
            Token::Trait => Token::Trait,
            Token::Comptime => Token::Comptime,
            Token::If => Token::If,
            Token::Elif => Token::Elif,
            Token::Else => Token::Else,
            Token::While => Token::While,
            Token::For => Token::For,
            Token::In => Token::In,
            Token::With => Token::With,
            Token::Try => Token::Try,
            Token::Except => Token::Except,
            Token::Finally => Token::Finally,
            Token::Return => Token::Return,
            Token::Raise => Token::Raise,
            Token::Raises => Token::Raises,
            Token::Import => Token::Import,
            Token::From => Token::From,
            Token::As => Token::As,
            Token::Pass => Token::Pass,
            Token::Break => Token::Break,
            Token::Continue => Token::Continue,
            Token::And => Token::And,
            Token::Or => Token::Or,
            Token::Not => Token::Not,
            Token::Identifier(a0) => Token::Identifier(a0.clone()),
            Token::IntLiteral(a0) => Token::IntLiteral(*a0),
            Token::BoolLiteral(a0) => Token::BoolLiteral(*a0),
            Token::StringLiteral(a0) => Token::StringLiteral(a0.clone()),
            Token::TripleStringLiteral(a0) => Token::TripleStringLiteral(a0.clone()),
            Token::Assign => Token::Assign,
            Token::Plus => Token::Plus,
            Token::Minus => Token::Minus,
            Token::Star => Token::Star,
            Token::Slash => Token::Slash,
            Token::DoubleSlash => Token::DoubleSlash,
            Token::Percent => Token::Percent,
            Token::DoubleStar => Token::DoubleStar,
            Token::At => Token::At,
            Token::Amp => Token::Amp,
            Token::Pipe => Token::Pipe,
            Token::Caret => Token::Caret,
            Token::PlusEq => Token::PlusEq,
            Token::MinusEq => Token::MinusEq,
            Token::StarEq => Token::StarEq,
            Token::SlashEq => Token::SlashEq,
            Token::DoubleSlashEq => Token::DoubleSlashEq,
            Token::PercentEq => Token::PercentEq,
            Token::DoubleStarEq => Token::DoubleStarEq,
            Token::AmpEq => Token::AmpEq,
            Token::PipeEq => Token::PipeEq,
            Token::CaretEq => Token::CaretEq,
            Token::EqEq => Token::EqEq,
            Token::NotEq => Token::NotEq,
            Token::Less => Token::Less,
            Token::Greater => Token::Greater,
            Token::LessEq => Token::LessEq,
            Token::GreaterEq => Token::GreaterEq,
            Token::Colon => Token::Colon,
            Token::Semicolon => Token::Semicolon,
            Token::Comma => Token::Comma,
            Token::Dot => Token::Dot,
            Token::Ellipsis => Token::Ellipsis,
            Token::Arrow => Token::Arrow,
            Token::LParen => Token::LParen,
            Token::RParen => Token::RParen,
            Token::LBracket => Token::LBracket,
            Token::RBracket => Token::RBracket,
            Token::LBrace => Token::LBrace,
            Token::RBrace => Token::RBrace,
            Token::Newline => Token::Newline,
            Token::Indent => Token::Indent,
            Token::Dedent => Token::Dedent,
            Token::Eof => Token::Eof,
        }
    }

    /// Structural equality.
    pub fn same(&self, other: &Token) -> (r: bool)
        ensures
            r == (self@ == other@),
        decreases self,
    {
        match self {
            Token::Var => match other { Token::Var => true, _ => false },
            Token::Def => match other { Token::Def => true, _ => false },
            Token::Struct => match other { Token::Struct => true, _ => false },
            Token::Trait => match other { Token::Trait => true, _ => false },
            Token::Comptime => match other { Token::Comptime => true, _ => false },
            Token::If => match other { Token::If => true, _ => false },
            Token::Elif => match other { Token::Elif => true, _ => false },
            Token::Else => match other { Token::Else => true, _ => false },
            Token::While => match other { Token::While => true, _ => false },
            Token::For => match other { Token::For => true, _ => false },
            Token::In => match other { Token::In => true, _ => false },
            Token::With => match other { Token::With => true, _ => false },
            Token::Try => match other { Token::Try => true, _ => false },
            Token::Except => match other { Token::Except => true, _ => false },
            Token::Finally => match other { Token::Finally => true, _ => false },
            Token::Return => match other { Token::Return => true, _ => false },
            Token::Raise => match other { Token::Raise => true, _ => false },
            Token::Raises => match other { Token::Raises => true, _ => false },
            Token::Import => match other { Token::Import => true, _ => false },
            Token::From => match other { Token::From => true, _ => false },
            Token::As => match other { Token::As => true, _ => false },
            Token::Pass => match other { Token::Pass => true, _ => false },
            Token::Break => match other { Token::Break => true, _ => false },
            Token::Continue => match other { Token::Continue => true, _ => false },
            Token::And => match other { Token::And => true, _ => false },
            Token::Or => match other { Token::Or => true, _ => false },
            Token::Not => match other { Token::Not => true, _ => false },
            Token::Identifier(a0) => match other {
                Token::Identifier(a02) => *a0 == *a02,
                _ => false,
            },
            Token::IntLiteral(a0) => match other {
                Token::IntLiteral(a02) => *a0 == *a02,
                _ => false,
            },
            Token::BoolLiteral(a0) => match other {
                Token::BoolLiteral(a02) => *a0 == *a02,
                _ => false,
            },
            Token::StringLiteral(a0) => match other {
                Token::StringLiteral(a02) => *a0 == *a02,
                _ => false,
            },
            Token::TripleStringLiteral(a0) => match other {
                Token::TripleStringLiteral(a02) => *a0 == *a02,
                _ => false,
            },
            Token::Assign => match other { Token::Assign => true, _ => false },
            Token::Plus => match other { Token::Plus => true, _ => false },
            Token::Minus => match other { Token::Minus => true, _ => false },
            Token::Star => match other { Token::Star => true, _ => false },
            Token::Slash => match other { Token::Slash => true, _ => false },
            Token::DoubleSlash => match other { Token::DoubleSlash => true, _ => false },
            Token::Percent => match other { Token::Percent => true, _ => false },
            Token::DoubleStar => match other { Token::DoubleStar => true, _ => false },
            Token::At => match other { Token::At => true, _ => false },
            Token::Amp => match other { Token::Amp => true, _ => false },
            Token::Pipe => match other { Token::Pipe => true, _ => false },
            Token::Caret => match other { Token::Caret => true, _ => false },
            Token::PlusEq => match other { Token::PlusEq => true, _ => false },
            Token::MinusEq => match other { Token::MinusEq => true, _ => false },
            Token::StarEq => match other { Token::StarEq => true, _ => false },
            Token::SlashEq => match other { Token::SlashEq => true, _ => false },
            Token::DoubleSlashEq => match other { Token::DoubleSlashEq => true, _ => false },
            Token::PercentEq => match other { Token::PercentEq => true, _ => false },
            Token::DoubleStarEq => match other { Token::DoubleStarEq => true, _ => false },
            Token::AmpEq => match other { Token::AmpEq => true, _ => false },
            Token::PipeEq => match other { Token::PipeEq => true, _ => false },
            Token::CaretEq => match other { Token::CaretEq => true, _ => false },
            Token::EqEq => match other { Token::EqEq => true, _ => false },
            Token::NotEq => match other { Token::NotEq => true, _ => false },
            Token::Less => match other { Token::Less => true, _ => false },
            Token::Greater => match other { Token::Greater => true, _ => false },
            Token::LessEq => match other { Token::LessEq => true, _ => false },
            Token::GreaterEq => match other { Token::GreaterEq => true, _ => false },
            Token::Colon => match other { Token::Colon => true, _ => false },
            Token::Semicolon => match other { Token::Semicolon => true, _ => false },
            Token::Comma => match other { Token::Comma => true, _ => false },
            Token::Dot => match other { Token::Dot => true, _ => false },
            Token::Ellipsis => match other { Token::Ellipsis => true, _ => false },
            Token::Arrow => match other { Token::Arrow => true, _ => false },
            Token::LParen => match other { Token::LParen => true, _ => false },
            Token::RParen => match other { Token::RParen => true, _ => false },
            Token::LBracket => match other { Token::LBracket => true, _ => false },
            Token::RBracket => match other { Token::RBracket => true, _ => false },
            Token::LBrace => match other { Token::LBrace => true, _ => false },
            Token::RBrace => match other { Token::RBrace => true, _ => false },
            Token::Newline => match other { Token::Newline => true, _ => false },
            Token::Indent => match other { Token::Indent => true, _ => false },
            Token::Dedent => match other { Token::Dedent => true, _ => false },
            Token::Eof => match other { Token::Eof => true, _ => false },
        }
    }
}

impl Clone for Token {
    fn clone(&self) -> (r: Token)
        ensures
            r@ == self@,
    {
        self.copy()
    }
}

/// The model of a [`LexError`].
pub open spec fn lex_error_view(x: LexError) -> LexErrorModel
    decreases x,
{
    LexErrorModel {
        message: x.message@,
    }
}

impl View for LexError {
    type V = LexErrorModel;

    open spec fn view(&self) -> LexErrorModel {
        lex_error_view(*self)
    }
}

impl LexError {
    /// A structural copy.
    pub fn copy(&self) -> (r: LexError)
        ensures
            r@ == self@,
        decreases self,
    {
        LexError {
            message: self.message.clone(),
        }
    }

    /// Structural equality.
    pub fn same(&self, other: &LexError) -> (r: bool)
        ensures
            r == (self@ == other@),
        decreases self,
    {
        self.message == other.message
    }
}

impl Clone for LexError {
    fn clone(&self) -> (r: LexError)
        ensures
            r@ == self@,
    {
        self.copy()
    }
}

} // verus!
