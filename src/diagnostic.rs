use vstd::prelude::*;
use crate::span::Span;

verus! {

/// The stable error codes of the language, `E0001` through `E0016`.
#[derive(Clone, Copy, Debug, PartialEq, Eq, Structural)]
pub enum ErrorCode {
    UnrecognizedToken,
    UnparsableFloat,
    EarlyEof,
    InvalidPrefix,
    UnexpectedToken,
    StackOverflow,
    StackUnderflow,
    InvalidArithmetic,
    InvalidAddition,
    InvalidIdentifier,
    MultipleDefinition,
    UndefinedVariable,
    InvalidAssignmentTarget,
    InvalidCallee,
    UnknownFunction,
    ArityMismatch,
}

/// The number of each error code, `n` in `E00nn`.
pub open spec fn code_number(c: ErrorCode) -> nat {
    match c {
        ErrorCode::UnrecognizedToken => 1,
        ErrorCode::UnparsableFloat => 2,
        ErrorCode::EarlyEof => 3,
        ErrorCode::InvalidPrefix => 4,
        ErrorCode::UnexpectedToken => 5,
        ErrorCode::StackOverflow => 6,
        ErrorCode::StackUnderflow => 7,
        ErrorCode::InvalidArithmetic => 8,
        ErrorCode::InvalidAddition => 9,
        ErrorCode::InvalidIdentifier => 10,
        ErrorCode::MultipleDefinition => 11,
        ErrorCode::UndefinedVariable => 12,
        ErrorCode::InvalidAssignmentTarget => 13,
        ErrorCode::InvalidCallee => 14,
        ErrorCode::UnknownFunction => 15,
        ErrorCode::ArityMismatch => 16,
    }
}

/// The decimal digit for `d < 10`.
pub open spec fn digit_char(d: nat) -> char {
    if d == 0 { '0' } else if d == 1 { '1' } else if d == 2 { '2' } else if d == 3 { '3' }
    else if d == 4 { '4' } else if d == 5 { '5' } else if d == 6 { '6' } else if d == 7 { '7' }
    else if d == 8 { '8' } else { '9' }
}

/// The text of an error code: `E00` followed by its two-digit number.
pub open spec fn code_text(c: ErrorCode) -> Seq<char> {
    seq!['E', '0', '0', digit_char(code_number(c) / 10), digit_char(code_number(c) % 10)]
}

/// The short message of each error code.
pub open spec fn message_text(c: ErrorCode) -> Seq<char> {
    match c {
        ErrorCode::UnrecognizedToken => "Unrecognized token"@,
        ErrorCode::UnparsableFloat => "Unparsable float literal"@,
        ErrorCode::EarlyEof => "Early EOF"@,
        ErrorCode::InvalidPrefix => "Invalid prefix expression"@,
        ErrorCode::UnexpectedToken => "Unexpected token"@,
        ErrorCode::StackOverflow => "Stack overflow"@,
        ErrorCode::StackUnderflow => "Stack underflow"@,
        ErrorCode::InvalidArithmetic => "Invalid arithmetic operands"@,
        ErrorCode::InvalidAddition => "Invalid addition/concatenation operands"@,
        ErrorCode::InvalidIdentifier => "Invalid identifier"@,
        ErrorCode::MultipleDefinition => "Multiple definition"@,
        ErrorCode::UndefinedVariable => "Undefined variable"@,
        ErrorCode::InvalidAssignmentTarget => "Invalid assignment target"@,
        ErrorCode::InvalidCallee => "Invalid invocation callee"@,
        ErrorCode::UnknownFunction => "Unknown function"@,
        ErrorCode::ArityMismatch => "Arity mismatch"@,
    }
}

/// The explanation of each error code, attached to its labelled span.
pub open spec fn explanation_text(c: ErrorCode) -> Seq<char> {
    match c {
        ErrorCode::UnrecognizedToken => "invalid token encountered here"@,
        ErrorCode::UnparsableFloat => "this float value may be valid, but cannot be parsed as f64"@,
        ErrorCode::EarlyEof => "expect some token (i.g. Semicolon) after this, got EOF"@,
        ErrorCode::InvalidPrefix => "this token cannot be prefix of an expression"@,
        ErrorCode::UnexpectedToken => "this token is shouldn't be placed here"@,
        ErrorCode::StackOverflow => "this operation caused VM stack overflow"@,
        ErrorCode::StackUnderflow => "this operation caused VM stack underflow"@,
        ErrorCode::InvalidArithmetic => "this operation can only be applied to numbers"@,
        ErrorCode::InvalidAddition => "this operation can only be applied to numbers or strings"@,
        ErrorCode::InvalidIdentifier => "this token cannot be used as an identifier"@,
        ErrorCode::MultipleDefinition => "this variable is already defined previously"@,
        ErrorCode::UndefinedVariable => "this variable is never defined"@,
        ErrorCode::InvalidAssignmentTarget => "the left operand is not assignable"@,
        ErrorCode::InvalidCallee => "only a named function can be invoked"@,
        ErrorCode::UnknownFunction => "no function of this name is defined"@,
        ErrorCode::ArityMismatch => "the number of arguments differs from the parameters"@,
    }
}

impl ErrorCode {
    /// The code's text, such as `E0012`.
    pub fn code(&self) -> (r: String)
        ensures
            r@ == code_text(*self),
    {
        let n: u8 = match self {
            ErrorCode::UnrecognizedToken => 1,
            ErrorCode::UnparsableFloat => 2,
            ErrorCode::EarlyEof => 3,
            ErrorCode::InvalidPrefix => 4,
            ErrorCode::UnexpectedToken => 5,
            ErrorCode::StackOverflow => 6,
            ErrorCode::StackUnderflow => 7,
            ErrorCode::InvalidArithmetic => 8,
            ErrorCode::InvalidAddition => 9,
            ErrorCode::InvalidIdentifier => 10,
            ErrorCode::MultipleDefinition => 11,
            ErrorCode::UndefinedVariable => 12,
            ErrorCode::InvalidAssignmentTarget => 13,
            ErrorCode::InvalidCallee => 14,
            ErrorCode::UnknownFunction => 15,
            ErrorCode::ArityMismatch => 16,
        };
        let mut text = String::new();
        text.append("E00");
        text.append(digit(n / 10));
        text.append(digit(n % 10));
        proof {
            reveal_strlit("E00");
            assert(text@ =~= code_text(*self));
        }
        text
    }

    /// The short message of the error.
    pub fn message(&self) -> (r: &'static str)
        ensures
            r@ == message_text(*self),
    {
        match self {
            ErrorCode::UnrecognizedToken => "Unrecognized token",
            ErrorCode::UnparsableFloat => "Unparsable float literal",
            ErrorCode::EarlyEof => "Early EOF",
            ErrorCode::InvalidPrefix => "Invalid prefix expression",
            ErrorCode::UnexpectedToken => "Unexpected token",
            ErrorCode::StackOverflow => "Stack overflow",
            ErrorCode::StackUnderflow => "Stack underflow",
            ErrorCode::InvalidArithmetic => "Invalid arithmetic operands",
            ErrorCode::InvalidAddition => "Invalid addition/concatenation operands",
            ErrorCode::InvalidIdentifier => "Invalid identifier",
            ErrorCode::MultipleDefinition => "Multiple definition",
            ErrorCode::UndefinedVariable => "Undefined variable",
            ErrorCode::InvalidAssignmentTarget => "Invalid assignment target",
            ErrorCode::InvalidCallee => "Invalid invocation callee",
            ErrorCode::UnknownFunction => "Unknown function",
            ErrorCode::ArityMismatch => "Arity mismatch",
        }
    }

    /// The explanation attached to the labelled span.
    pub fn explanation(&self) -> (r: &'static str)
        ensures
            r@ == explanation_text(*self),
    {
        match self {
            ErrorCode::UnrecognizedToken => "invalid token encountered here",
            ErrorCode::UnparsableFloat => "this float value may be valid, but cannot be parsed as f64",
            ErrorCode::EarlyEof => "expect some token (i.g. Semicolon) after this, got EOF",
            ErrorCode::InvalidPrefix => "this token cannot be prefix of an expression",
            ErrorCode::UnexpectedToken => "this token is shouldn't be placed here",
            ErrorCode::StackOverflow => "this operation caused VM stack overflow",
            ErrorCode::StackUnderflow => "this operation caused VM stack underflow",
            ErrorCode::InvalidArithmetic => "this operation can only be applied to numbers",
            ErrorCode::InvalidAddition => "this operation can only be applied to numbers or strings",
            ErrorCode::InvalidIdentifier => "this token cannot be used as an identifier",
            ErrorCode::MultipleDefinition => "this variable is already defined previously",
            ErrorCode::UndefinedVariable => "this variable is never defined",
            ErrorCode::InvalidAssignmentTarget => "the left operand is not assignable",
            ErrorCode::InvalidCallee => "only a named function can be invoked",
            ErrorCode::UnknownFunction => "no function of this name is defined",
            ErrorCode::ArityMismatch => "the number of arguments differs from the parameters",
        }
    }
}

/// The digit `d` as a one-character string.
fn digit(d: u8) -> (r: &'static str)
    requires
        d < 10,
    ensures
        r@ == seq![digit_char(d as nat)],
{
    proof {
        reveal_strlit("0"); reveal_strlit("1"); reveal_strlit("2"); reveal_strlit("3");
        reveal_strlit("4"); reveal_strlit("5"); reveal_strlit("6"); reveal_strlit("7");
        reveal_strlit("8"); reveal_strlit("9");
    }
    let r = if d == 0 { "0" } else if d == 1 { "1" } else if d == 2 { "2" } else if d == 3 { "3" }
    else if d == 4 { "4" } else if d == 5 { "5" } else if d == 6 { "6" } else if d == 7 { "7" }
    else if d == 8 { "8" } else { "9" };
    proof {
        assert(r@ =~= seq![digit_char(d as nat)]);
    }
    r
}

/// A structured error: a code, the span it concerns, and free-form notes.
/// Rendering it is the embedding program's concern.
#[derive(Clone, Debug)]
pub struct Diagnostic {
    pub code: ErrorCode,
    pub span: Span,
    pub notes: Vec<String>,
}

/// The diagnostic for `code` at `span`, without notes.
pub fn raise(code: ErrorCode, span: Span) -> (r: Diagnostic)
    ensures
        r.code == code,
        r.span == span,
        r.notes@.len() == 0,
{
    Diagnostic { code, span, notes: Vec::new() }
}

} // verus!
