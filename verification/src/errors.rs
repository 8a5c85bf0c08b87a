//! The error kinds a compilation can abort with.
//!
//! Every error is fatal: the driver surfaces a single message and exits;
//! no partial computation is emitted.
use vstd::prelude::*;

verus! {

/// Why a compilation was rejected.
#[derive(Clone, Copy, Debug, PartialEq, Eq, Structural)]
pub enum PyError {
    /// A top-level statement is not a function definition.
    TopLevelNotAFunction,
    /// No `main` function is defined.
    NoMainFunction,
    /// A parameter or declaration lacks a type annotation.
    MissingTypeAnnotation,
    /// A type annotation is not `int` or `bool`.
    UnknownType,
    /// A statement form outside the supported subset.
    UnsupportedStatement,
    /// An expression form outside the supported subset.
    UnsupportedExpression,
    /// A call to anything but the recognized built-in functions.
    UnsupportedCall,
    /// A plain assignment to a name never declared with a type.
    UndeclaredAssignment,
    /// A read of a name that is not in scope.
    UndeclaredVariable,
    /// `range` invoked with the wrong arity or with non-literal arguments.
    InvalidRangeArgs,
    /// An integer literal whose digits are not decimal, or an `if`
    /// condition, assignment or merge that mixes the two types.
    TypeError,
}

impl PyError {
    /// A one-line rendering of the error, as the driver prints it.
    pub fn message(&self) -> (r: &'static str) {
        match self {
            PyError::TopLevelNotAFunction => "Code is not only functions",
            PyError::NoMainFunction => "Code does not have main function",
            PyError::MissingTypeAnnotation => "Argument does not have type hint",
            PyError::UnknownType => "ParsePythonTyError",
            PyError::UnsupportedStatement => "Statement hasn't been implemented",
            PyError::UnsupportedExpression => "Expr hasn't been implemented",
            PyError::UnsupportedCall => "Can only handle builtin functions",
            PyError::UndeclaredAssignment => "Declarations are only implemented for typed assignments",
            PyError::UndeclaredVariable => "Variable is not declared",
            PyError::InvalidRangeArgs => "range builtin has invalid args",
            PyError::TypeError => "Type mismatch",
        }
    }
}

} // verus!
