use vstd::prelude::*;

use crate::token::Span;

verus! {

/// Why the parser rejected a stretch of input.
#[derive(Debug, Clone, Copy, PartialEq, Eq, Structural)]
pub enum ParseErrorKind {
    /// A token the lexer already marked as unrecognized or ill-formed.
    BadToken,
    /// A token that no grammar rule admits at that point.
    UnexpectedToken,
    /// The input stopped where the grammar needs more.
    UnexpectedEnd,
    /// A closing parenthesis is missing.
    ExpectedClose,
    /// Input continued after a complete expression.
    TrailingTokens,
    /// A numeric literal that does not denote a number.
    InvalidNumber,
}

/// One structured parse error: where, and why.
#[derive(Debug, Clone, Copy, PartialEq, Eq, Structural)]
pub struct ParseError {
    pub span: Span,
    pub kind: ParseErrorKind,
}

/// Every way an evaluation can fail. Failures met while evaluating a
/// call's arguments or running its function are wrapped in `InArgs` or
/// `InCall` with the function's name, forming a causal chain.
#[derive(Debug)]
pub enum EvalError {
    /// The input did not parse; all errors of the attempt, in source
    /// order.
    Parse(Vec<ParseError>),
    /// A call named a function the registry does not hold.
    FunctionNotFound(String),
    /// A function got the wrong number of arguments.
    ArityMismatch { expected: usize, got: usize },
    /// An argument's variant does not fit what the position needs.
    TypeMismatch { position: usize },
    /// An integer argument does not fit the target machine width.
    RangeOverflow { position: usize },
    /// An integer division by zero.
    DivisionByZero,
    /// A failure while evaluating the named function's arguments.
    InArgs(String, Box<EvalError>),
    /// A failure inside the named function itself.
    InCall(String, Box<EvalError>),
}

} // verus!
