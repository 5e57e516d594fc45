//! Errors are values: every fallible operation of the machine returns a
//! `Result` whose error names a category and carries a detail string.
use vstd::prelude::*;

verus! {

/// An error of the machine: a category together with a human-readable detail.
#[derive(Debug, Clone)]
pub enum JvmError {
    /// A malformed class artifact: bad magic, truncated stream, unknown
    /// required attribute, or an opcode the decoder does not know.
    ParseError(String),
    /// A constant pool kind mismatch, or a missing class, method or field.
    ResolutionError(String),
    /// A runtime tag mismatch.
    TypeError(String),
    /// A pop from an empty operand stack, or from an empty frame stack.
    StackUnderflow(String),
    /// An out-of-range local, array index or program counter.
    IndexOutOfBounds(String),
    /// Integer division or remainder by zero.
    ArithmeticError(String),
    /// An instruction that decodes but does not execute.
    Unimplemented(String),
}

/// The category of a `JvmError`, without the detail string. Contracts speak
/// of categories; the detail strings are free-form.
#[derive(Debug, Clone, Copy, PartialEq, Eq, Structural)]
pub enum ErrorKind {
    ParseError,
    ResolutionError,
    TypeError,
    StackUnderflow,
    IndexOutOfBounds,
    ArithmeticError,
    Unimplemented,
}

/// The category that a given error value belongs to.
pub open spec fn kind_of(e: JvmError) -> ErrorKind {
    match e {
        JvmError::ParseError(_) => ErrorKind::ParseError,
        JvmError::ResolutionError(_) => ErrorKind::ResolutionError,
        JvmError::TypeError(_) => ErrorKind::TypeError,
        JvmError::StackUnderflow(_) => ErrorKind::StackUnderflow,
        JvmError::IndexOutOfBounds(_) => ErrorKind::IndexOutOfBounds,
        JvmError::ArithmeticError(_) => ErrorKind::ArithmeticError,
        JvmError::Unimplemented(_) => ErrorKind::Unimplemented,
    }
}

impl JvmError {
    /// The error's category.
    pub fn kind(&self) -> (k: ErrorKind)
        ensures
            k == kind_of(*self),
    {
        match self {
            JvmError::ParseError(_) => ErrorKind::ParseError,
            JvmError::ResolutionError(_) => ErrorKind::ResolutionError,
            JvmError::TypeError(_) => ErrorKind::TypeError,
            JvmError::StackUnderflow(_) => ErrorKind::StackUnderflow,
            JvmError::IndexOutOfBounds(_) => ErrorKind::IndexOutOfBounds,
            JvmError::ArithmeticError(_) => ErrorKind::ArithmeticError,
            JvmError::Unimplemented(_) => ErrorKind::Unimplemented,
        }
    }

    /// The detail string the error carries.
    pub fn detail(&self) -> (s: &String)
        ensures
            *s == detail_of(*self),
    {
        match self {
            JvmError::ParseError(s) => s,
            JvmError::ResolutionError(s) => s,
            JvmError::TypeError(s) => s,
            JvmError::StackUnderflow(s) => s,
            JvmError::IndexOutOfBounds(s) => s,
            JvmError::ArithmeticError(s) => s,
            JvmError::Unimplemented(s) => s,
        }
    }
}

/// The detail string inside an error value.
pub open spec fn detail_of(e: JvmError) -> String {
    match e {
        JvmError::ParseError(s) => s,
        JvmError::ResolutionError(s) => s,
        JvmError::TypeError(s) => s,
        JvmError::StackUnderflow(s) => s,
        JvmError::IndexOutOfBounds(s) => s,
        JvmError::ArithmeticError(s) => s,
        JvmError::Unimplemented(s) => s,
    }
}

/// A `ParseError` with the given detail.
pub fn err_parse(m: &str) -> (e: JvmError)
    ensures
        kind_of(e) == ErrorKind::ParseError,
{
    JvmError::ParseError(crate::text::msg(m))
}

/// A `ResolutionError` with the given detail.
pub fn err_resolution(m: &str) -> (e: JvmError)
    ensures
        kind_of(e) == ErrorKind::ResolutionError,
{
    JvmError::ResolutionError(crate::text::msg(m))
}

/// A `TypeError` with the given detail.
pub fn err_type(m: &str) -> (e: JvmError)
    ensures
        kind_of(e) == ErrorKind::TypeError,
{
    JvmError::TypeError(crate::text::msg(m))
}

/// A `StackUnderflow` with the given detail.
pub fn err_underflow(m: &str) -> (e: JvmError)
    ensures
        kind_of(e) == ErrorKind::StackUnderflow,
{
    JvmError::StackUnderflow(crate::text::msg(m))
}

/// An `IndexOutOfBounds` with the given detail.
pub fn err_index(m: &str) -> (e: JvmError)
    ensures
        kind_of(e) == ErrorKind::IndexOutOfBounds,
{
    JvmError::IndexOutOfBounds(crate::text::msg(m))
}

/// An `Unimplemented` with the given detail.
pub fn err_unimpl(m: &str) -> (e: JvmError)
    ensures
        kind_of(e) == ErrorKind::Unimplemented,
{
    JvmError::Unimplemented(crate::text::msg(m))
}

/// Relates an executable result to a specification-level result: the same
/// success value, or an error of the specified category.
pub open spec fn matches_spec<T>(r: Result<T, JvmError>, s: Result<T, ErrorKind>) -> bool {
    match s {
        Ok(v) => r is Ok && r->Ok_0 == v,
        Err(k) => r is Err && kind_of(r->Err_0) == k,
    }
}

} // verus!
