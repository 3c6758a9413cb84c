use vstd::prelude::*;
use crate::lexer::token::{Token, TokenModel};

verus! {

/// Errors found while parsing tokens.
#[derive(Debug, PartialEq, Eq, Clone)]
pub enum ParserError {
    EOFError,
    NUDMissing(Token),
    UnexpectedToken { expected: Token, actual: Token },
    MismatchedTokenType { expected: String, actual: Token },
    ClashingModifier,
}

/// The model of a `ParserError`.
pub enum ParserErrorModel {
    EOFError,
    NUDMissing(TokenModel),
    UnexpectedToken { expected: TokenModel, actual: TokenModel },
    MismatchedTokenType { expected: Seq<char>, actual: TokenModel },
    ClashingModifier,
}

impl View for ParserError {
    type V = ParserErrorModel;

    open spec fn view(&self) -> ParserErrorModel {
        match self {
            ParserError::EOFError => ParserErrorModel::EOFError,
            ParserError::NUDMissing(t) => ParserErrorModel::NUDMissing(t@),
            ParserError::UnexpectedToken { expected, actual } => ParserErrorModel::UnexpectedToken {
                expected: expected@,
                actual: actual@,
            },
            ParserError::MismatchedTokenType { expected, actual } => {
                ParserErrorModel::MismatchedTokenType { expected: expected@, actual: actual@ }
            },
            ParserError::ClashingModifier => ParserErrorModel::ClashingModifier,
        }
    }
}

} // verus!
