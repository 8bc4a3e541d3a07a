//! What the grammar checker does with a stream of tokens.
//!
//! For each rule of the grammar a function says how many tokens of a stream
//! the rule takes up, or which fault stops the checker first. The checker
//! looks at one token at a time and fetches the next whenever it has accepted
//! one, so a lexical fault in the token behind an accepted one stops it
//! there.
//!
//! ```text
//! document := object | array
//! value    := object | array | string | number | "true" | "false" | "null"
//! object   := '{' '}' | '{' pair (',' pair)* '}'
//! pair     := string ':' value
//! array    := '[' ']' | '[' value (',' value)* ']'
//! ```

use vstd::prelude::*;
use crate::fault::Fault;
use crate::lexer::TokenType;
use crate::stream::{stream_from, Stream};

verus! {

/// The fault for a token of another type than `expected` at the head of `st`.
pub open spec fn unexpected(st: Stream, expected: TokenType) -> Fault {
    Fault::UnexpectedToken { expected, actual: st.kind(), position: st.start() as usize }
}

/// Whether a token of type `kind` is a value by itself.
pub open spec fn is_scalar(kind: TokenType) -> bool {
    kind == TokenType::STRING || kind == TokenType::NUMBER || kind == TokenType::TRUE || kind
        == TokenType::FALSE || kind == TokenType::NULL
}

/// Accepting the current token and fetching the next: one token is taken up,
/// unless the fetch raises a fault. At the end of the text nothing is left to
/// take up, and the current token stays `EOF`.
pub open spec fn advance_outcome(st: Stream) -> Result<nat, Fault> {
    if st.tokens.len() == 0 {
        Ok(0)
    } else {
        match st.fetch_fault() {
            Some(f) => Err(f),
            None => Ok(1),
        }
    }
}

/// Requiring a token of type `expected`: the current token is accepted if it
/// is one, and is a fault if not.
pub open spec fn eat_outcome(st: Stream, expected: TokenType) -> Result<nat, Fault> {
    if st.kind() == expected {
        advance_outcome(st)
    } else {
        Err(unexpected(st, expected))
    }
}

/// Whether `after` and `r` are what a step of the checker leaves of the
/// stream `before` that has the given outcome: either success with the stream
/// behind the tokens that were taken up, or the outcome's fault.
pub open spec fn consumes(before: Stream, after: Stream, r: Result<(), Fault>, outcome: Result<nat, Fault>) -> bool {
    match outcome {
        Ok(n) => r is Ok && after == before.skip(n),
        Err(f) => r == Err::<(), Fault>(f),
    }
}

/// The rule `value`: what the current token starts decides. A token that
/// starts no value is a fault.
pub open spec fn value_outcome(st: Stream) -> Result<nat, Fault>
    decreases st.tokens.len(), 2int,
{
    if st.kind() == TokenType::OPBR {
        object_outcome(st)
    } else if st.kind() == TokenType::OPSQ {
        array_outcome(st)
    } else if is_scalar(st.kind()) {
        advance_outcome(st)
    } else {
        Err(Fault::InvalidValue { position: st.start() as usize })
    }
}

/// The rule `array`: an opening bracket, then either the closing bracket or
/// the elements up to it.
pub open spec fn array_outcome(st: Stream) -> Result<nat, Fault>
    decreases st.tokens.len(), 1int,
{
    match eat_outcome(st, TokenType::OPSQ) {
        Err(f) => Err(f),
        Ok(_) => {
            let inner = st.skip(1);
            if inner.kind() == TokenType::CLSQ {
                match advance_outcome(inner) {
                    Err(f) => Err(f),
                    Ok(_) => Ok(2),
                }
            } else {
                match elements_outcome(inner) {
                    Err(f) => Err(f),
                    Ok(n) => Ok(n + 1),
                }
            }
        },
    }
}

/// The elements of an array and its closing bracket: a value, then either a
/// comma and more elements, or the closing bracket.
///
/// A closing bracket directly behind a comma is a fault of its own,
/// `UnexpectedToken`. As any value may stand there, the fault names `STRING`
/// as expected, as the fault at that place in an object does.
pub open spec fn elements_outcome(st: Stream) -> Result<nat, Fault>
    decreases st.tokens.len(), 3int,
{
    match value_outcome(st) {
        Err(f) => Err(f),
        Ok(n) => {
            let after = st.skip(n);
            if after.kind() == TokenType::COMMA {
                let next = st.skip(n + 1);
                match advance_outcome(after) {
                    Err(f) => Err(f),
                    Ok(_) => {
                        if next.kind() == TokenType::CLSQ {
                            Err(unexpected(next, TokenType::STRING))
                        } else {
                            match elements_outcome(next) {
                                Err(f) => Err(f),
                                Ok(m) => Ok(n + 1 + m),
                            }
                        }
                    },
                }
            } else {
                match eat_outcome(after, TokenType::CLSQ) {
                    Err(f) => Err(f),
                    Ok(_) => Ok(n + 1),
                }
            }
        },
    }
}

/// The rule `pair`: a string, a colon and a value.
pub open spec fn pair_outcome(st: Stream) -> Result<nat, Fault>
    decreases st.tokens.len(), 3int,
{
    match eat_outcome(st, TokenType::STRING) {
        Err(f) => Err(f),
        Ok(_) => match eat_outcome(st.skip(1), TokenType::COLON) {
            Err(f) => Err(f),
            Ok(_) => match value_outcome(st.skip(2)) {
                Err(f) => Err(f),
                Ok(n) => Ok(n + 2),
            },
        },
    }
}

/// The rule `object`: an opening brace, then either the closing brace or the
/// pairs up to it.
pub open spec fn object_outcome(st: Stream) -> Result<nat, Fault>
    decreases st.tokens.len(), 1int,
{
    match eat_outcome(st, TokenType::OPBR) {
        Err(f) => Err(f),
        Ok(_) => {
            let inner = st.skip(1);
            if inner.kind() == TokenType::CLBR {
                match advance_outcome(inner) {
                    Err(f) => Err(f),
                    Ok(_) => Ok(2),
                }
            } else {
                match members_outcome(inner) {
                    Err(f) => Err(f),
                    Ok(n) => Ok(n + 1),
                }
            }
        },
    }
}

/// The pairs of an object and its closing brace: a pair, then either a comma
/// and more pairs, or the closing brace.
pub open spec fn members_outcome(st: Stream) -> Result<nat, Fault>
    decreases st.tokens.len(), 4int,
{
    match pair_outcome(st) {
        Err(f) => Err(f),
        Ok(n) => {
            let after = st.skip(n);
            if after.kind() == TokenType::COMMA {
                match advance_outcome(after) {
                    Err(f) => Err(f),
                    Ok(_) => match members_outcome(st.skip(n + 1)) {
                        Err(f) => Err(f),
                        Ok(m) => Ok(n + 1 + m),
                    },
                }
            } else {
                match eat_outcome(after, TokenType::CLBR) {
                    Err(f) => Err(f),
                    Ok(_) => Ok(n + 1),
                }
            }
        },
    }
}

/// The rule `document`: an object or an array, and behind it nothing but the
/// end of the text.
///
/// Any other token at the root is `InvalidValue`, a scalar too. A token
/// behind the root is `UnexpectedToken`, with `EOF` expected.
pub open spec fn document_outcome(st: Stream) -> Result<(), Fault> {
    if st.kind() == TokenType::OPBR || st.kind() == TokenType::OPSQ {
        match value_outcome(st) {
            Err(f) => Err(f),
            Ok(n) => {
                if st.skip(n).kind() == TokenType::EOF {
                    Ok(())
                } else {
                    Err(unexpected(st.skip(n), TokenType::EOF))
                }
            },
        }
    } else {
        Err(Fault::InvalidValue { position: st.start() as usize })
    }
}

/// Whether the text `s` is a well-formed document, and the first fault in it
/// if it is not.
pub open spec fn verdict(s: Seq<char>) -> Result<(), Fault> {
    let st = stream_from(s, 0);
    match st.opening_fault() {
        Some(f) => Err(f),
        None => document_outcome(st),
    }
}

} // verus!
