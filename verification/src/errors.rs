use vstd::prelude::*;

verus! {

/// The fault categories that compilation or execution can report.
///
/// The machine treats bytecode as compiler-generated, so none of these is
/// expected on well-formed programs except the ones that mirror the language
/// semantics (an unresolved name, an unhandled operand pair, arithmetic
/// faults).  They are still all reported as values rather than panics, so an
/// embedder decides what a fault terminates.
#[derive(Clone, Copy, Debug, PartialEq, Eq, Structural)]
pub enum VMErrorKind {
    /// An instruction needed more operand-stack values than were present.
    StackUnderflow,
    /// `Load` named a global that was never declared or assigned.
    UndeclaredVariable,
    /// `Call` named something that is neither a compiled function nor a
    /// registered native function.
    UnresolvedFunction,
    /// An arithmetic or comparison instruction met an operand pair it does
    /// not handle.
    TypeMismatch,
    /// The compiler needed an operand larger than one byte can encode: a
    /// constant-pool index, a jump distance, an argument count or a function
    /// body length above 255.
    OperandOverflow,
    /// A checked 64-bit arithmetic instruction overflowed.
    ArithmeticOverflow,
    /// `Div` with a zero divisor.
    DivisionByZero,
    /// The instruction stream itself was malformed: a constant index out of
    /// range, a name operand that is not a string constant, a `Call` not
    /// followed by its argument-count marker, or a `Return` with no saved
    /// address.
    InvalidBytecode,
}

/// A structured fault: the category plus a human-readable cause.
#[derive(Debug)]
pub struct VMError {
    pub kind: VMErrorKind,
    pub cause: String,
}

impl VMError {
    /// Builds a fault of the given kind with its description.
    pub fn new(kind: VMErrorKind, cause: String) -> (r: VMError)
        ensures
            r.kind == kind,
            r.cause@ == cause@,
    {
        VMError { kind, cause }
    }
}

} // verus!
