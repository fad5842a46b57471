//! The one error type that every phase of the pipeline reports.
//!
//! Each variant names one way a compilation can fail, with the offending
//! value as its payload; the driver renders them as text at the edge.

use vstd::prelude::*;

use crate::abstract_syntax_tree::{SyntaxComponent, SyntaxComponentV};
use crate::lexical_analysis::TokenBuildingStateType;
use crate::semantic_analysis::ReturnType;
use crate::token::{Token, TokenV};

verus! {

/// A fatal error from one of the four phases; the first one aborts the run.
#[derive(Debug, Clone, PartialEq)]
pub enum CompileError {
    // lexical analysis
    UnexpectedCharacter { character: char, accumulator: String, state: TokenBuildingStateType },
    InvalidToken { text: String },
    // syntax analysis
    UnexpectedToken { got: Token, expected: Token },
    UnexpectedEndOfStream { expected: Token },
    UnexpectedEndOfInput,
    InvalidOperand { got: Token },
    NotASyntaxComponent { token: Token },
    ExpectedIdentifierAfterType,
    UnexpectedEndOfDeclaration,
    UnexpectedEndOfExpression,
    // semantic analysis
    MissingChild { parent: SyntaxComponent },
    TooManyChildren,
    IfConditionNotBoolean,
    ForPreLoopNotVoid,
    ForConditionNotBoolean,
    ForPostLoopNotVoid,
    ForBodyNotVoid,
    AssignmentTargetNotIdentifier { got: SyntaxComponent },
    AssignmentTypeMismatch { left: ReturnType, right: ReturnType },
    RelationTypeMismatch { left: ReturnType, right: ReturnType },
    BinaryOperandsNotNumbers,
    MutatedNonNumber,
    NegatedNonBoolean,
    UndeclaredIdentifier { name: String },
    DeclarationTypeNotType,
    DeclarationTypeMismatch { expected: ReturnType, value: ReturnType },
    // intermediate code generation
    MutationTargetNotIdentifier,
    NoResultAddress,
    EmptyConditionCode,
    UnallocatedIdentifier { name: String },
    AddressOfNonValue { component: SyntaxComponent },
    NotAStatement { component: SyntaxComponent },
    NotAnIdentifier,
    NotAType,
}

/// The mathematical value of a `CompileError`.
pub ghost enum ErrorV {
    UnexpectedCharacter { character: char, accumulator: Seq<char>, state: TokenBuildingStateType },
    InvalidToken(Seq<char>),
    UnexpectedToken { got: TokenV, expected: TokenV },
    UnexpectedEndOfStream { expected: TokenV },
    UnexpectedEndOfInput,
    InvalidOperand { got: TokenV },
    NotASyntaxComponent { token: TokenV },
    ExpectedIdentifierAfterType,
    UnexpectedEndOfDeclaration,
    UnexpectedEndOfExpression,
    MissingChild { parent: SyntaxComponentV },
    TooManyChildren,
    IfConditionNotBoolean,
    ForPreLoopNotVoid,
    ForConditionNotBoolean,
    ForPostLoopNotVoid,
    ForBodyNotVoid,
    AssignmentTargetNotIdentifier { got: SyntaxComponentV },
    AssignmentTypeMismatch { left: ReturnType, right: ReturnType },
    RelationTypeMismatch { left: ReturnType, right: ReturnType },
    BinaryOperandsNotNumbers,
    MutatedNonNumber,
    NegatedNonBoolean,
    UndeclaredIdentifier { name: Seq<char> },
    DeclarationTypeNotType,
    DeclarationTypeMismatch { expected: ReturnType, value: ReturnType },
    MutationTargetNotIdentifier,
    NoResultAddress,
    EmptyConditionCode,
    UnallocatedIdentifier { name: Seq<char> },
    AddressOfNonValue { component: SyntaxComponentV },
    NotAStatement { component: SyntaxComponentV },
    NotAnIdentifier,
    NotAType,
}

impl View for CompileError {
    type V = ErrorV;

    open spec fn view(&self) -> ErrorV {
        match self {
            CompileError::UnexpectedCharacter { character, accumulator, state } => {
                ErrorV::UnexpectedCharacter {
                    character: *character,
                    accumulator: accumulator@,
                    state: *state,
                }
            },
            CompileError::InvalidToken { text } => ErrorV::InvalidToken(text@),
            CompileError::UnexpectedToken { got, expected } => ErrorV::UnexpectedToken {
                got: got@,
                expected: expected@,
            },
            CompileError::UnexpectedEndOfStream { expected } => ErrorV::UnexpectedEndOfStream {
                expected: expected@,
            },
            CompileError::UnexpectedEndOfInput => ErrorV::UnexpectedEndOfInput,
            CompileError::InvalidOperand { got } => ErrorV::InvalidOperand { got: got@ },
            CompileError::NotASyntaxComponent { token } => ErrorV::NotASyntaxComponent {
                token: token@,
            },
            CompileError::ExpectedIdentifierAfterType => ErrorV::ExpectedIdentifierAfterType,
            CompileError::UnexpectedEndOfDeclaration => ErrorV::UnexpectedEndOfDeclaration,
            CompileError::UnexpectedEndOfExpression => ErrorV::UnexpectedEndOfExpression,
            CompileError::MissingChild { parent } => ErrorV::MissingChild { parent: parent@ },
            CompileError::TooManyChildren => ErrorV::TooManyChildren,
            CompileError::IfConditionNotBoolean => ErrorV::IfConditionNotBoolean,
            CompileError::ForPreLoopNotVoid => ErrorV::ForPreLoopNotVoid,
            CompileError::ForConditionNotBoolean => ErrorV::ForConditionNotBoolean,
            CompileError::ForPostLoopNotVoid => ErrorV::ForPostLoopNotVoid,
            CompileError::ForBodyNotVoid => ErrorV::ForBodyNotVoid,
            CompileError::AssignmentTargetNotIdentifier { got } => {
                ErrorV::AssignmentTargetNotIdentifier { got: got@ }
            },
            CompileError::AssignmentTypeMismatch { left, right } => ErrorV::AssignmentTypeMismatch {
                left: *left,
                right: *right,
            },
            CompileError::RelationTypeMismatch { left, right } => ErrorV::RelationTypeMismatch {
                left: *left,
                right: *right,
            },
            CompileError::BinaryOperandsNotNumbers => ErrorV::BinaryOperandsNotNumbers,
            CompileError::MutatedNonNumber => ErrorV::MutatedNonNumber,
            CompileError::NegatedNonBoolean => ErrorV::NegatedNonBoolean,
            CompileError::UndeclaredIdentifier { name } => ErrorV::UndeclaredIdentifier {
                name: name@,
            },
            CompileError::DeclarationTypeNotType => ErrorV::DeclarationTypeNotType,
            CompileError::DeclarationTypeMismatch { expected, value } => {
                ErrorV::DeclarationTypeMismatch { expected: *expected, value: *value }
            },
            CompileError::MutationTargetNotIdentifier => ErrorV::MutationTargetNotIdentifier,
            CompileError::NoResultAddress => ErrorV::NoResultAddress,
            CompileError::EmptyConditionCode => ErrorV::EmptyConditionCode,
            CompileError::UnallocatedIdentifier { name } => ErrorV::UnallocatedIdentifier {
                name: name@,
            },
            CompileError::AddressOfNonValue { component } => ErrorV::AddressOfNonValue {
                component: component@,
            },
            CompileError::NotAStatement { component } => ErrorV::NotAStatement {
                component: component@,
            },
            CompileError::NotAnIdentifier => ErrorV::NotAnIdentifier,
            CompileError::NotAType => ErrorV::NotAType,
        }
    }
}

} // verus!
