use vstd::prelude::*;

use crate::token::{Token, TokenV};

verus! {

/// Every way an evaluation can fail.  The `String` fields carry the
/// rendered form of the values involved, exactly as the display functions
/// produce them.
#[derive(Debug, PartialEq)]
pub enum EvalError {
    TypeMismatch(String, String),
    InvalidOperation { operation: String, object_type: String },
    InvalidPrefix(Token),
    InvalidOperator(String, String, String),
    IdentifierNotFount(String),
    ImpossibleState(String),
    InvalidParamTypes { expected: String, actual: String },
    InvalidParamCount { expected: usize, actual: usize },
    InvalidObjectType(String, String),
    IndexOperatorNotSupported(String),
    IndexOutOfBounds { index: i64, max: i64 },
    InvalidHashKeyType(String),
    HashKeyNotFound(String),
    RecursionLimitReached,
}

/// The mathematical model of an [`EvalError`].
pub enum ErrV {
    TypeMismatch(Seq<char>, Seq<char>),
    InvalidOperation { operation: Seq<char>, object_type: Seq<char> },
    InvalidPrefix(TokenV),
    InvalidOperator(Seq<char>, Seq<char>, Seq<char>),
    IdentifierNotFount(Seq<char>),
    ImpossibleState(Seq<char>),
    InvalidParamTypes { expected: Seq<char>, actual: Seq<char> },
    InvalidParamCount { expected: int, actual: int },
    InvalidObjectType(Seq<char>, Seq<char>),
    IndexOperatorNotSupported(Seq<char>),
    IndexOutOfBounds { index: i64, max: i64 },
    InvalidHashKeyType(Seq<char>),
    HashKeyNotFound(Seq<char>),
    RecursionLimitReached,
}

impl View for EvalError {
    type V = ErrV;

    open spec fn view(&self) -> ErrV {
        match self {
            EvalError::TypeMismatch(a, b) => ErrV::TypeMismatch(a@, b@),
            EvalError::InvalidOperation { operation, object_type } => ErrV::InvalidOperation {
                operation: operation@,
                object_type: object_type@,
            },
            EvalError::InvalidPrefix(t) => ErrV::InvalidPrefix(t@),
            EvalError::InvalidOperator(a, b, c) => ErrV::InvalidOperator(a@, b@, c@),
            EvalError::IdentifierNotFount(s) => ErrV::IdentifierNotFount(s@),
            EvalError::ImpossibleState(s) => ErrV::ImpossibleState(s@),
            EvalError::InvalidParamTypes { expected, actual } => ErrV::InvalidParamTypes {
                expected: expected@,
                actual: actual@,
            },
            EvalError::InvalidParamCount { expected, actual } => ErrV::InvalidParamCount {
                expected: *expected as int,
                actual: *actual as int,
            },
            EvalError::InvalidObjectType(a, b) => ErrV::InvalidObjectType(a@, b@),
            EvalError::IndexOperatorNotSupported(s) => ErrV::IndexOperatorNotSupported(s@),
            EvalError::IndexOutOfBounds { index, max } => ErrV::IndexOutOfBounds {
                index: *index,
                max: *max,
            },
            EvalError::InvalidHashKeyType(s) => ErrV::InvalidHashKeyType(s@),
            EvalError::HashKeyNotFound(s) => ErrV::HashKeyNotFound(s@),
            EvalError::RecursionLimitReached => ErrV::RecursionLimitReached,
        }
    }
}

} // verus!
