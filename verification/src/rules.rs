//! The table of parse rules: what the expression parser does with a token
//! that starts an expression, what with one that follows an operand, and how
//! strongly the token binds as an operator.

use vstd::prelude::*;
use crate::precedence::Precedence;
use crate::token_type::TokenType;

verus! {

/// The parsing routines that a rule can name.
#[derive(Debug, PartialEq, Eq, Clone, Copy, Structural)]
pub enum ParseFn {
    Grouping,
    Call,
    Unary,
    Binary,
    Variable,
    String,
    Number,
    And,
    Or,
    Literal,
}

/// The rule of one token kind.
#[derive(Debug, PartialEq, Eq, Clone, Copy, Structural)]
pub struct ParseRule {
    /// The routine for the token at the start of an expression.
    pub prefix: Option<ParseFn>,
    /// The routine for the token after an operand.
    pub infix: Option<ParseFn>,
    /// The binding strength of the token as an infix operator.
    pub precedence: Precedence,
}

/// The rule of each token kind.
pub open spec fn rule_of(kind: TokenType) -> ParseRule {
    match kind {
        TokenType::TokenLeftParen => ParseRule {
            prefix: Some(ParseFn::Grouping),
            infix: Some(ParseFn::Call),
            precedence: Precedence::PrecCall,
        },
        TokenType::TokenMinus => ParseRule {
            prefix: Some(ParseFn::Unary),
            infix: Some(ParseFn::Binary),
            precedence: Precedence::PrecTerm,
        },
        TokenType::TokenPlus => ParseRule {
            prefix: None,
            infix: Some(ParseFn::Binary),
            precedence: Precedence::PrecTerm,
        },
        TokenType::TokenSlash | TokenType::TokenStar | TokenType::TokenCarat => ParseRule {
            prefix: None,
            infix: Some(ParseFn::Binary),
            precedence: Precedence::PrecFactor,
        },
        TokenType::TokenBang => ParseRule {
            prefix: Some(ParseFn::Unary),
            infix: None,
            precedence: Precedence::PrecNone,
        },
        TokenType::TokenBangEqual | TokenType::TokenEqualEqual => ParseRule {
            prefix: None,
            infix: Some(ParseFn::Binary),
            precedence: Precedence::PrecEquality,
        },
        TokenType::TokenGreater
        | TokenType::TokenGreaterEqual
        | TokenType::TokenLess
        | TokenType::TokenLessEqual => ParseRule {
            prefix: None,
            infix: Some(ParseFn::Binary),
            precedence: Precedence::PrecComparison,
        },
        TokenType::TokenIdentifier => ParseRule {
            prefix: Some(ParseFn::Variable),
            infix: None,
            precedence: Precedence::PrecNone,
        },
        TokenType::TokenString => ParseRule {
            prefix: Some(ParseFn::String),
            infix: None,
            precedence: Precedence::PrecNone,
        },
        TokenType::TokenNumber => ParseRule {
            prefix: Some(ParseFn::Number),
            infix: None,
            precedence: Precedence::PrecNone,
        },
        TokenType::TokenAnd => ParseRule {
            prefix: None,
            infix: Some(ParseFn::And),
            precedence: Precedence::PrecAnd,
        },
        TokenType::TokenOr => ParseRule {
            prefix: None,
            infix: Some(ParseFn::Or),
            precedence: Precedence::PrecOr,
        },
        TokenType::TokenFalse | TokenType::TokenNil | TokenType::TokenTrue => ParseRule {
            prefix: Some(ParseFn::Literal),
            infix: None,
            precedence: Precedence::PrecNone,
        },
        _ => ParseRule { prefix: None, infix: None, precedence: Precedence::PrecNone },
    }
}

/// The rule of a token kind.
pub fn get_rule(kind: TokenType) -> (rule: ParseRule)
    ensures
        rule == rule_of(kind),
{
    match kind {
        TokenType::TokenLeftParen => ParseRule {
            prefix: Some(ParseFn::Grouping),
            infix: Some(ParseFn::Call),
            precedence: Precedence::PrecCall,
        },
        TokenType::TokenMinus => ParseRule {
            prefix: Some(ParseFn::Unary),
            infix: Some(ParseFn::Binary),
            precedence: Precedence::PrecTerm,
        },
        TokenType::TokenPlus => ParseRule {
            prefix: None,
            infix: Some(ParseFn::Binary),
            precedence: Precedence::PrecTerm,
        },
        TokenType::TokenSlash | TokenType::TokenStar | TokenType::TokenCarat => ParseRule {
            prefix: None,
            infix: Some(ParseFn::Binary),
            precedence: Precedence::PrecFactor,
        },
        TokenType::TokenBang => ParseRule {
            prefix: Some(ParseFn::Unary),
            infix: None,
            precedence: Precedence::PrecNone,
        },
        TokenType::TokenBangEqual | TokenType::TokenEqualEqual => ParseRule {
            prefix: None,
            infix: Some(ParseFn::Binary),
            precedence: Precedence::PrecEquality,
        },
        TokenType::TokenGreater
        | TokenType::TokenGreaterEqual
        | TokenType::TokenLess
        | TokenType::TokenLessEqual => ParseRule {
            prefix: None,
            infix: Some(ParseFn::Binary),
            precedence: Precedence::PrecComparison,
        },
        TokenType::TokenIdentifier => ParseRule {
            prefix: Some(ParseFn::Variable),
            infix: None,
            precedence: Precedence::PrecNone,
        },
        TokenType::TokenString => ParseRule {
            prefix: Some(ParseFn::String),
            infix: None,
            precedence: Precedence::PrecNone,
        },
        TokenType::TokenNumber => ParseRule {
            prefix: Some(ParseFn::Number),
            infix: None,
            precedence: Precedence::PrecNone,
        },
        TokenType::TokenAnd => ParseRule {
            prefix: None,
            infix: Some(ParseFn::And),
            precedence: Precedence::PrecAnd,
        },
        TokenType::TokenOr => ParseRule {
            prefix: None,
            infix: Some(ParseFn::Or),
            precedence: Precedence::PrecOr,
        },
        TokenType::TokenFalse | TokenType::TokenNil | TokenType::TokenTrue => ParseRule {
            prefix: Some(ParseFn::Literal),
            infix: None,
            precedence: Precedence::PrecNone,
        },
        _ => ParseRule { prefix: None, infix: None, precedence: Precedence::PrecNone },
    }
}

/// Every token kind that binds as an operator has an infix routine, and the
/// binary operators bind more weakly than a unary operand, so the level after
/// theirs exists.
pub proof fn operators_have_infix_rules(kind: TokenType)
    ensures
        rule_of(kind).precedence != Precedence::PrecNone ==> rule_of(kind).infix is Some,
        rule_of(kind).infix == Some(ParseFn::Binary) ==> 1 <= rule_of(kind).precedence.rank() <= 7,
        rule_of(kind).precedence != Precedence::PrecPrimary,
{
}

} // verus!
