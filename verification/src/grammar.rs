//! The grammar of documents, over sequences of token types.
//!
//! ```text
//! document := object | array
//! value    := object | array | string | number | "true" | "false" | "null"
//! object   := '{' '}' | '{' pair (',' pair)* '}'
//! pair     := string ':' value
//! array    := '[' ']' | '[' value (',' value)* ']'
//! ```
//!
//! Each rule is a predicate on a stretch of a sequence: the tokens from
//! index `i` up to, and without, index `j`. The predicates say which
//! sequences the grammar generates and nothing of how to recognise one.

use vstd::prelude::*;
use crate::descent::is_scalar;
use crate::lexer::TokenType;

verus! {

/// Whether the tokens of `ts` from `i` to `j` form a `value`.
pub open spec fn value_at(ts: Seq<TokenType>, i: int, j: int) -> bool
    decreases j - i, 2int,
{
    ||| (0 <= i < ts.len() && j == i + 1 && is_scalar(ts[i]))
    ||| array_at(ts, i, j)
    ||| object_at(ts, i, j)
}

/// Whether the tokens of `ts` from `i` to `j` form an `array`.
pub open spec fn array_at(ts: Seq<TokenType>, i: int, j: int) -> bool
    decreases j - i, 1int,
{
    &&& 0 <= i
    &&& i + 2 <= j <= ts.len()
    &&& ts[i] == TokenType::OPSQ
    &&& ts[j - 1] == TokenType::CLSQ
    &&& (j == i + 2 || elements_at(ts, i + 1, j - 1))
}

/// Whether the tokens of `ts` from `i` to `j` form one or more values with a
/// comma between each two: `value (',' value)*`.
pub open spec fn elements_at(ts: Seq<TokenType>, i: int, j: int) -> bool
    decreases j - i, 3int,
{
    ||| value_at(ts, i, j)
    ||| exists|k: int|
        i < k < j - 1 && value_at(ts, i, k) && #[trigger] ts[k] == TokenType::COMMA && elements_at(
            ts,
            k + 1,
            j,
        )
}

/// Whether the tokens of `ts` from `i` to `j` form a `pair`.
pub open spec fn pair_at(ts: Seq<TokenType>, i: int, j: int) -> bool
    decreases j - i, 3int,
{
    &&& 0 <= i
    &&& i + 2 < j <= ts.len()
    &&& ts[i] == TokenType::STRING
    &&& ts[i + 1] == TokenType::COLON
    &&& value_at(ts, i + 2, j)
}

/// Whether the tokens of `ts` from `i` to `j` form an `object`.
pub open spec fn object_at(ts: Seq<TokenType>, i: int, j: int) -> bool
    decreases j - i, 1int,
{
    &&& 0 <= i
    &&& i + 2 <= j <= ts.len()
    &&& ts[i] == TokenType::OPBR
    &&& ts[j - 1] == TokenType::CLBR
    &&& (j == i + 2 || members_at(ts, i + 1, j - 1))
}

/// Whether the tokens of `ts` from `i` to `j` form one or more pairs with a
/// comma between each two: `pair (',' pair)*`.
pub open spec fn members_at(ts: Seq<TokenType>, i: int, j: int) -> bool
    decreases j - i, 4int,
{
    ||| pair_at(ts, i, j)
    ||| exists|k: int|
        i < k < j - 1 && pair_at(ts, i, k) && #[trigger] ts[k] == TokenType::COMMA && members_at(
            ts,
            k + 1,
            j,
        )
}

/// Whether `ts` is a `document`: all of it is one object or one array.
pub open spec fn is_document(ts: Seq<TokenType>) -> bool {
    object_at(ts, 0, ts.len() as int) || array_at(ts, 0, ts.len() as int)
}

} // verus!
