//! The faults that end a validation.
//!
//! Validation stops at the first fault. Every fault carries the code-point
//! offset at which it was detected.

use vstd::prelude::*;
use crate::lexer::TokenType;

verus! {

/// Why a text is not a well-formed document, and where.
///
/// The first six variants are lexical: the tokenizer raises them while it
/// scans one token. The last two are syntactic: the grammar checker raises
/// them when a well-formed token stands where the grammar has no place for it.
#[derive(Clone, Copy, Debug, PartialEq, Eq, Structural)]
pub enum Fault {
    /// A code point that starts no token.
    UnexpectedCharacter { character: char, position: usize },
    /// A number that lacks a digit where one is required, or holds a decimal
    /// point where none is allowed.
    InvalidNumber { position: usize },
    /// A string that meets the end of the text, or a raw control character,
    /// before its closing quote.
    UnterminatedString { position: usize },
    /// A backslash followed by a code point that cannot be escaped.
    InvalidEscape { position: usize },
    /// A `\u` escape with something else than a hexadecimal digit among the
    /// four code points after it.
    InvalidHexEscape { position: usize },
    /// Text that starts like `true`, `false` or `null` and goes on otherwise.
    InvalidLiteral { position: usize },
    /// A token of another type than the one the grammar requires here.
    UnexpectedToken { expected: TokenType, actual: TokenType, position: usize },
    /// A token that cannot start a value, where a value is required.
    InvalidValue { position: usize },
}

impl Fault {
    /// The code-point offset at which the fault was detected.
    pub open spec fn at(self) -> int {
        match self {
            Fault::UnexpectedCharacter { position, .. } => position as int,
            Fault::InvalidNumber { position } => position as int,
            Fault::UnterminatedString { position } => position as int,
            Fault::InvalidEscape { position } => position as int,
            Fault::InvalidHexEscape { position } => position as int,
            Fault::InvalidLiteral { position } => position as int,
            Fault::UnexpectedToken { position, .. } => position as int,
            Fault::InvalidValue { position } => position as int,
        }
    }

    /// Whether the tokenizer raises this fault, as opposed to the grammar
    /// checker.
    pub open spec fn lexical(self) -> bool {
        !(self is UnexpectedToken) && !(self is InvalidValue)
    }

    /// Returns the code-point offset at which the fault was detected.
    pub fn position(&self) -> (r: usize)
        ensures
            r == self.at(),
    {
        match self {
            Fault::UnexpectedCharacter { position, .. } => *position,
            Fault::InvalidNumber { position } => *position,
            Fault::UnterminatedString { position } => *position,
            Fault::InvalidEscape { position } => *position,
            Fault::InvalidHexEscape { position } => *position,
            Fault::InvalidLiteral { position } => *position,
            Fault::UnexpectedToken { position, .. } => *position,
            Fault::InvalidValue { position } => *position,
        }
    }

    /// Tells whether the tokenizer raised this fault.
    pub fn is_lexical(&self) -> (r: bool)
        ensures
            r == self.lexical(),
    {
        match self {
            Fault::UnexpectedToken { .. } => false,
            Fault::InvalidValue { .. } => false,
            _ => true,
        }
    }
}

} // verus!
