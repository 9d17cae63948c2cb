use vstd::prelude::*;
use crate::span::Spanned;

verus! {

/// A lexeme of the language. A number is the bit pattern of an IEEE-754 double.
#[derive(Debug)]
pub enum Lexeme {
    LeftParenthesis,
    RightParenthesis,
    LeftBrace,
    RightBrace,
    Comma,
    Dot,
    Minus,
    Plus,
    Semicolon,
    Slash,
    Star,
    Bang,
    Equal,
    Greater,
    Less,
    BangEqual,
    EqualEqual,
    GreaterEqual,
    LessEqual,
    Identifier(String),
    String(String),
    Number(u64),
    And,
    Class,
    Else,
    False,
    For,
    Fun,
    If,
    Nil,
    Or,
    Print,
    Return,
    Super,
    This,
    True,
    Var,
    While,
}

/// The variant of a lexeme, without its payload.
#[derive(Clone, Copy, Debug, PartialEq, Eq, Structural)]
pub enum LexemeKind {
    LeftParenthesis,
    RightParenthesis,
    LeftBrace,
    RightBrace,
    Comma,
    Dot,
    Minus,
    Plus,
    Semicolon,
    Slash,
    Star,
    Bang,
    Equal,
    Greater,
    Less,
    BangEqual,
    EqualEqual,
    GreaterEqual,
    LessEqual,
    Identifier,
    String,
    Number,
    And,
    Class,
    Else,
    False,
    For,
    Fun,
    If,
    Nil,
    Or,
    Print,
    Return,
    Super,
    This,
    True,
    Var,
    While,
}

/// The variant of `l`.
pub open spec fn kind_of(l: Lexeme) -> LexemeKind {
    match l {
        Lexeme::LeftParenthesis => LexemeKind::LeftParenthesis,
        Lexeme::RightParenthesis => LexemeKind::RightParenthesis,
        Lexeme::LeftBrace => LexemeKind::LeftBrace,
        Lexeme::RightBrace => LexemeKind::RightBrace,
        Lexeme::Comma => LexemeKind::Comma,
        Lexeme::Dot => LexemeKind::Dot,
        Lexeme::Minus => LexemeKind::Minus,
        Lexeme::Plus => LexemeKind::Plus,
        Lexeme::Semicolon => LexemeKind::Semicolon,
        Lexeme::Slash => LexemeKind::Slash,
        Lexeme::Star => LexemeKind::Star,
        Lexeme::Bang => LexemeKind::Bang,
        Lexeme::Equal => LexemeKind::Equal,
        Lexeme::Greater => LexemeKind::Greater,
        Lexeme::Less => LexemeKind::Less,
        Lexeme::BangEqual => LexemeKind::BangEqual,
        Lexeme::EqualEqual => LexemeKind::EqualEqual,
        Lexeme::GreaterEqual => LexemeKind::GreaterEqual,
        Lexeme::LessEqual => LexemeKind::LessEqual,
        Lexeme::Identifier(_) => LexemeKind::Identifier,
        Lexeme::String(_) => LexemeKind::String,
        Lexeme::Number(_) => LexemeKind::Number,
        Lexeme::And => LexemeKind::And,
        Lexeme::Class => LexemeKind::Class,
        Lexeme::Else => LexemeKind::Else,
        Lexeme::False => LexemeKind::False,
        Lexeme::For => LexemeKind::For,
        Lexeme::Fun => LexemeKind::Fun,
        Lexeme::If => LexemeKind::If,
        Lexeme::Nil => LexemeKind::Nil,
        Lexeme::Or => LexemeKind::Or,
        Lexeme::Print => LexemeKind::Print,
        Lexeme::Return => LexemeKind::Return,
        Lexeme::Super => LexemeKind::Super,
        Lexeme::This => LexemeKind::This,
        Lexeme::True => LexemeKind::True,
        Lexeme::Var => LexemeKind::Var,
        Lexeme::While => LexemeKind::While,
    }
}

impl Lexeme {
    pub fn kind(&self) -> (r: LexemeKind)
        ensures
            r == kind_of(*self),
    {
        match self {
            Lexeme::LeftParenthesis => LexemeKind::LeftParenthesis,
            Lexeme::RightParenthesis => LexemeKind::RightParenthesis,
            Lexeme::LeftBrace => LexemeKind::LeftBrace,
            Lexeme::RightBrace => LexemeKind::RightBrace,
            Lexeme::Comma => LexemeKind::Comma,
            Lexeme::Dot => LexemeKind::Dot,
            Lexeme::Minus => LexemeKind::Minus,
            Lexeme::Plus => LexemeKind::Plus,
            Lexeme::Semicolon => LexemeKind::Semicolon,
            Lexeme::Slash => LexemeKind::Slash,
            Lexeme::Star => LexemeKind::Star,
            Lexeme::Bang => LexemeKind::Bang,
            Lexeme::Equal => LexemeKind::Equal,
            Lexeme::Greater => LexemeKind::Greater,
            Lexeme::Less => LexemeKind::Less,
            Lexeme::BangEqual => LexemeKind::BangEqual,
            Lexeme::EqualEqual => LexemeKind::EqualEqual,
            Lexeme::GreaterEqual => LexemeKind::GreaterEqual,
            Lexeme::LessEqual => LexemeKind::LessEqual,
            Lexeme::Identifier(_) => LexemeKind::Identifier,
            Lexeme::String(_) => LexemeKind::String,
            Lexeme::Number(_) => LexemeKind::Number,
            Lexeme::And => LexemeKind::And,
            Lexeme::Class => LexemeKind::Class,
            Lexeme::Else => LexemeKind::Else,
            Lexeme::False => LexemeKind::False,
            Lexeme::For => LexemeKind::For,
            Lexeme::Fun => LexemeKind::Fun,
            Lexeme::If => LexemeKind::If,
            Lexeme::Nil => LexemeKind::Nil,
            Lexeme::Or => LexemeKind::Or,
            Lexeme::Print => LexemeKind::Print,
            Lexeme::Return => LexemeKind::Return,
            Lexeme::Super => LexemeKind::Super,
            Lexeme::This => LexemeKind::This,
            Lexeme::True => LexemeKind::True,
            Lexeme::Var => LexemeKind::Var,
            Lexeme::While => LexemeKind::While,
        }
    }
}

/// A lexeme of this kind can begin an expression.
pub open spec fn starts_expression(k: LexemeKind) -> bool {
    k is Nil || k is True || k is False || k is Number || k is String || k is Identifier
        || k is LeftParenthesis || k is Bang || k is Minus
}

/// A lexeme with its span in the source.
pub type Token = Spanned<Lexeme>;

/// Binding strength of an infix operator, weakest first.
#[derive(Clone, Copy, Debug, PartialEq, Eq, Structural)]
pub enum InfixPrecedence {
    Lowest,
    Assignment,
    ConditionalOr,
    ConditionalAnd,
    Equality,
    Relational,
    Additive,
    Multiplicative,
    Property,
    Impossible,
}

/// The rank of a precedence: `Lowest` is zero, `Impossible` nine.
pub open spec fn rank(p: InfixPrecedence) -> nat {
    match p {
        InfixPrecedence::Lowest => 0,
        InfixPrecedence::Assignment => 1,
        InfixPrecedence::ConditionalOr => 2,
        InfixPrecedence::ConditionalAnd => 3,
        InfixPrecedence::Equality => 4,
        InfixPrecedence::Relational => 5,
        InfixPrecedence::Additive => 6,
        InfixPrecedence::Multiplicative => 7,
        InfixPrecedence::Property => 8,
        InfixPrecedence::Impossible => 9,
    }
}

impl InfixPrecedence {
    pub fn level(&self) -> (r: u8)
        ensures
            r == rank(*self),
    {
        match self {
            InfixPrecedence::Lowest => 0,
            InfixPrecedence::Assignment => 1,
            InfixPrecedence::ConditionalOr => 2,
            InfixPrecedence::ConditionalAnd => 3,
            InfixPrecedence::Equality => 4,
            InfixPrecedence::Relational => 5,
            InfixPrecedence::Additive => 6,
            InfixPrecedence::Multiplicative => 7,
            InfixPrecedence::Property => 8,
            InfixPrecedence::Impossible => 9,
        }
    }

    /// The next stronger precedence; `Impossible` stays.
    pub fn increase(&self) -> (r: InfixPrecedence)
        ensures
            rank(r) == if rank(*self) < 9 { rank(*self) + 1 } else { 9 },
    {
        match self {
            InfixPrecedence::Lowest => InfixPrecedence::Assignment,
            InfixPrecedence::Assignment => InfixPrecedence::ConditionalOr,
            InfixPrecedence::ConditionalOr => InfixPrecedence::ConditionalAnd,
            InfixPrecedence::ConditionalAnd => InfixPrecedence::Equality,
            InfixPrecedence::Equality => InfixPrecedence::Relational,
            InfixPrecedence::Relational => InfixPrecedence::Additive,
            InfixPrecedence::Additive => InfixPrecedence::Multiplicative,
            InfixPrecedence::Multiplicative => InfixPrecedence::Property,
            InfixPrecedence::Property => InfixPrecedence::Impossible,
            InfixPrecedence::Impossible => InfixPrecedence::Impossible,
        }
    }
}

/// The precedence of a lexeme as an infix operator; `Lowest` when it is not one.
pub open spec fn precedence_of(k: LexemeKind) -> InfixPrecedence {
    match k {
        LexemeKind::Equal => InfixPrecedence::Assignment,
        LexemeKind::Or => InfixPrecedence::ConditionalOr,
        LexemeKind::And => InfixPrecedence::ConditionalAnd,
        LexemeKind::EqualEqual | LexemeKind::BangEqual => InfixPrecedence::Equality,
        LexemeKind::Greater | LexemeKind::GreaterEqual | LexemeKind::Less | LexemeKind::LessEqual => InfixPrecedence::Relational,
        LexemeKind::Plus | LexemeKind::Minus => InfixPrecedence::Additive,
        LexemeKind::Star | LexemeKind::Slash => InfixPrecedence::Multiplicative,
        LexemeKind::Dot => InfixPrecedence::Property,
        _ => InfixPrecedence::Lowest,
    }
}

impl LexemeKind {
    pub fn precedence(&self) -> (r: InfixPrecedence)
        ensures
            r == precedence_of(*self),
    {
        match self {
            LexemeKind::Equal => InfixPrecedence::Assignment,
            LexemeKind::Or => InfixPrecedence::ConditionalOr,
            LexemeKind::And => InfixPrecedence::ConditionalAnd,
            LexemeKind::EqualEqual | LexemeKind::BangEqual => InfixPrecedence::Equality,
            LexemeKind::Greater | LexemeKind::GreaterEqual | LexemeKind::Less | LexemeKind::LessEqual => InfixPrecedence::Relational,
            LexemeKind::Plus | LexemeKind::Minus => InfixPrecedence::Additive,
            LexemeKind::Star | LexemeKind::Slash => InfixPrecedence::Multiplicative,
            LexemeKind::Dot => InfixPrecedence::Property,
            _ => InfixPrecedence::Lowest,
        }
    }
}

} // verus!
