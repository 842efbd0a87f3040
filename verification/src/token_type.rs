//! The kinds of token that the scanner produces.

use vstd::prelude::*;

verus! {

/// The closed set of token kinds.
#[derive(Debug, PartialEq, Eq, Clone, Copy, Structural)]
pub enum TokenType {
    // Single-character tokens
    TokenLeftParen,
    TokenRightParen,
    TokenLeftBrace,
    TokenRightBrace,
    TokenComma,
    TokenDot,
    TokenSemicolon,
    // One or two character tokens
    TokenBang,
    TokenBangEqual,
    TokenEqual,
    TokenEqualEqual,
    TokenGreater,
    TokenGreaterEqual,
    TokenLess,
    TokenLessEqual,
    TokenPlus,
    TokenPlusEqual,
    TokenMinus,
    TokenMinusEqual,
    TokenSlash,
    TokenSlashEqual,
    TokenStar,
    TokenStarEqual,
    TokenCarat,
    TokenCaratEqual,
    // Literals
    TokenIdentifier,
    TokenString,
    TokenNumber,
    // Keywords
    TokenAnd,
    TokenClass,
    TokenElse,
    TokenFalse,
    TokenFor,
    TokenFun,
    TokenIf,
    TokenNil,
    TokenOr,
    TokenPrint,
    TokenReturn,
    TokenSuper,
    TokenThis,
    TokenTrue,
    TokenVar,
    TokenWhile,
    // Miscellaneous
    TokenError,
    TokenEOF,
    /// The kind of the placeholder token that a parser holds before it has
    /// read anything.
    Undefined,
}

} // verus!
