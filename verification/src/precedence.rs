use vstd::prelude::*;

use crate::token::Token;

verus! {

/// Binding-power levels, lowest to highest. An operator extends the
/// expression to its left exactly when its level is strictly greater than
/// the level the expression was started with; equal levels therefore bind
/// to the left.
#[derive(Clone, Copy)]
pub enum PrecedenceType {
    Lowest,
    Equals,
    LessGreater,
    Sum,
    Product,
    Prefix,
    Call,
}

impl PrecedenceType {
    /// The numeric rank of this level.
    pub open spec fn rank(self) -> int {
        match self {
            PrecedenceType::Lowest => 0,
            PrecedenceType::Equals => 1,
            PrecedenceType::LessGreater => 2,
            PrecedenceType::Sum => 3,
            PrecedenceType::Product => 4,
            PrecedenceType::Prefix => 5,
            PrecedenceType::Call => 6,
        }
    }

    pub open spec fn lt_spec(self, other: PrecedenceType) -> bool {
        self.rank() < other.rank()
    }

    fn rank_val(&self) -> (r: u8)
        ensures
            r as int == self.rank(),
    {
        match self {
            PrecedenceType::Lowest => 0u8,
            PrecedenceType::Equals => 1u8,
            PrecedenceType::LessGreater => 2u8,
            PrecedenceType::Sum => 3u8,
            PrecedenceType::Product => 4u8,
            PrecedenceType::Prefix => 5u8,
            PrecedenceType::Call => 6u8,
        }
    }

    /// Whether this level binds less tightly than `other`.
    pub fn lt(&self, other: &PrecedenceType) -> (r: bool)
        ensures
            r == self.lt_spec(*other),
    {
        self.rank_val() < other.rank_val()
    }
}

/// The binding power of the token found in continuing position. Tokens
/// that are no operator get the lowest level and so never extend the
/// expression before them.
pub open spec fn spec_precedence(t: Token) -> PrecedenceType {
    match t {
        Token::Equals => PrecedenceType::Equals,
        Token::NotEquals => PrecedenceType::Equals,
        Token::Lt => PrecedenceType::LessGreater,
        Token::Gt => PrecedenceType::LessGreater,
        Token::Plus => PrecedenceType::Sum,
        Token::Minus => PrecedenceType::Sum,
        Token::Slash => PrecedenceType::Product,
        Token::Asterisk => PrecedenceType::Product,
        Token::Lparen => PrecedenceType::Call,
        _ => PrecedenceType::Lowest,
    }
}

/// The tokens that build a binary infix node.
pub open spec fn is_infix_token(t: Token) -> bool {
    t is Plus || t is Minus || t is Slash || t is Asterisk || t is Equals || t is NotEquals
        || t is Lt || t is Gt
}

} // verus!
