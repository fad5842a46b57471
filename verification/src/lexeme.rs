//! Lexemes: the single-character classification used by the arithmetic
//! subset of the token alphabet.

use vstd::prelude::*;

verus! {

/// The class of a single-character lexeme.
#[derive(Debug, Clone, Copy, PartialEq, Eq, Structural)]
pub enum LexemeType {
    Constant,
    OperatorAddition,
    OperatorSubtraction,
    OperatorMultiplication,
    OperatorDivision,
}

/// A classified single character.
#[derive(Debug, Clone, Copy, PartialEq, Eq, Structural)]
pub struct Lexeme {
    pub lexeme_type: LexemeType,
    pub value: char,
}

} // verus!
