//! The ways an evaluation can fail.
//!
//! Every dynamic fault aborts the whole evaluation: there is no catch
//! construct in the language and no local recovery. The error value is
//! threaded outward through every evaluation call.

use vstd::prelude::*;

verus! {

/// Mathematical model of an evaluation error, with names as character
/// sequences.
pub enum ErrorSpec {
    /// A name was read (or assigned) that no frame in the scope chain binds.
    UnboundIdentifier(Seq<char>),
    /// An operation met operands of the wrong dynamic type. `context` names
    /// the operation (an operator symbol, or `downcast`), `expected` and
    /// `got` are type names.
    TypeMismatch { context: Seq<char>, expected: Seq<char>, got: Seq<char> },
    /// Integer division with a zero divisor.
    DivisionByZero,
    /// `Apply` on a value that is not an under-saturated closure; carries the
    /// type name of the callee.
    NotCallable(Seq<char>),
    /// A `Cond` whose conditions all evaluated to `false`.
    NoMatchingBranch,
    /// The evaluation-depth budget ran out before the program finished.
    RecursionLimitExceeded,
}

/// An evaluation error, as the executable evaluator reports it.
#[derive(Debug, PartialEq, Eq)]
pub enum EvalError {
    /// A name was read (or assigned) that no frame in the scope chain binds.
    UnboundIdentifier(String),
    /// An operation met operands of the wrong dynamic type.
    TypeMismatch { context: String, expected: String, got: String },
    /// Integer division with a zero divisor.
    DivisionByZero,
    /// `Apply` on a value that is not an under-saturated closure.
    NotCallable(String),
    /// A `Cond` whose conditions all evaluated to `false`.
    NoMatchingBranch,
    /// The evaluation-depth budget ran out before the program finished.
    RecursionLimitExceeded,
}

impl DeepView for EvalError {
    type V = ErrorSpec;

    open spec fn deep_view(&self) -> ErrorSpec {
        match self {
            EvalError::UnboundIdentifier(n) => ErrorSpec::UnboundIdentifier(n@),
            EvalError::TypeMismatch { context, expected, got } => ErrorSpec::TypeMismatch {
                context: context@,
                expected: expected@,
                got: got@,
            },
            EvalError::DivisionByZero => ErrorSpec::DivisionByZero,
            EvalError::NotCallable(t) => ErrorSpec::NotCallable(t@),
            EvalError::NoMatchingBranch => ErrorSpec::NoMatchingBranch,
            EvalError::RecursionLimitExceeded => ErrorSpec::RecursionLimitExceeded,
        }
    }
}

} // verus!
