use vstd::prelude::*;

use crate::ast::Symbol;

verus! {

/// A lexical token of the language.
#[derive(Debug, Clone, Copy, PartialEq, Eq, Structural)]
pub enum Token {
    Bar,
    OpenParenthesis,
    CloseParenthesis,
    OpenBrace,
    CloseBrace,
    Coma,
    Dot,
    Minus,
    Plus,
    Star,
    Divide,
    Modulo,
    Semicolon,
    Bang,
    BangEqual,
    Less,
    LessEqual,
    Greater,
    GreaterEqual,
    Equal,
    Assign,
    Comment,
    If,
    Else,
    False,
    True,
    Var,
    While,
    For,
    And,
    Or,
    Break,
    Continue,
    Function,
    Return,
    Class,
    Super,
    This,
    Null,
    Print,
    Arrow,
    Number(i64),
    Text(Symbol),
    Identifier(Symbol),
    Error,
}

/// Where an operator stands relative to its operand.
#[derive(Debug, Clone, Copy, PartialEq, Eq, Structural)]
pub enum Affix {
    Infix,
    Prefix,
}

/// How tightly a token binds as an operator; 0 for a token that is no
/// operator in that position.
pub open spec fn binding_power(t: Token, affix: Affix) -> usize {
    match affix {
        Affix::Prefix => match t {
            Token::Minus | Token::Bang => 7,
            _ => 0,
        },
        Affix::Infix => match t {
            Token::Assign => 1,
            Token::BangEqual | Token::Equal | Token::Greater | Token::GreaterEqual | Token::Less
            | Token::LessEqual => 4,
            Token::Plus | Token::Minus => 5,
            Token::Star | Token::Divide => 6,
            _ => 0,
        },
    }
}

impl Token {
    /// The binding power of the token: `2 + 2 * 8` groups as `2 + (2 * 8)`
    /// because `*` binds tighter than `+`.
    pub fn bp(&self, affix: Affix) -> (r: usize)
        ensures
            r == binding_power(*self, affix),
    {
        match affix {
            Affix::Prefix => match self {
                Token::Minus | Token::Bang => 7,
                _ => 0,
            },
            Affix::Infix => match self {
                Token::Assign => 1,
                Token::BangEqual | Token::Equal | Token::Greater | Token::GreaterEqual
                | Token::Less | Token::LessEqual => 4,
                Token::Plus | Token::Minus => 5,
                Token::Star | Token::Divide => 6,
                _ => 0,
            },
        }
    }

    /// The token starts a statement rather than an expression.
    pub fn is_stmt(&self) -> (r: bool)
        ensures
            r == (*self == Token::Var || *self == Token::Print || *self == Token::Class || *self
                == Token::Function),
    {
        match self {
            Token::Var | Token::Print | Token::Class | Token::Function => true,
            _ => false,
        }
    }
}

} // verus!
