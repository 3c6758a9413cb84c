use vstd::prelude::*;
use crate::lexer::token::{Token, TokenModel};

verus! {

/// Why std's integer parsing refused a literal.
#[derive(Debug, Copy, Clone, PartialEq, Eq, Structural)]
pub enum IntErrorKind {
    /// A character that is not a decimal digit.
    InvalidDigit,
    /// The value does not fit in an `i64`.
    PosOverflow,
}

/// Errors found while reading tokens.
#[derive(Debug, PartialEq, Eq, Clone)]
pub enum LexerError {
    EOFError,
    UnclosedComment,
    UnclosedString,
    IdentifierExpected(Token),
    UnknownToken(char),
    NumberExpected(String),
    IntParseFail(String, IntErrorKind),
    FloatParseFail(String),
}

/// The model of a `LexerError`.
pub enum LexerErrorModel {
    EOFError,
    UnclosedComment,
    UnclosedString,
    IdentifierExpected(TokenModel),
    UnknownToken(char),
    NumberExpected(Seq<char>),
    IntParseFail(Seq<char>, IntErrorKind),
    FloatParseFail(Seq<char>),
}

impl View for LexerError {
    type V = LexerErrorModel;

    open spec fn view(&self) -> LexerErrorModel {
        match self {
            LexerError::EOFError => LexerErrorModel::EOFError,
            LexerError::UnclosedComment => LexerErrorModel::UnclosedComment,
            LexerError::UnclosedString => LexerErrorModel::UnclosedString,
            LexerError::IdentifierExpected(t) => LexerErrorModel::IdentifierExpected(t@),
            LexerError::UnknownToken(c) => LexerErrorModel::UnknownToken(*c),
            LexerError::NumberExpected(s) => LexerErrorModel::NumberExpected(s@),
            LexerError::IntParseFail(s, k) => LexerErrorModel::IntParseFail(s@, *k),
            LexerError::FloatParseFail(s) => LexerErrorModel::FloatParseFail(s@),
        }
    }
}

} // verus!
