//! The tokens of a text, as the grammar checker meets them.
//!
//! A [`Stream`] is what the tokenizer has to give from some position on: the
//! tokens up to the end of the text, or up to the first lexical fault.

use vstd::prelude::*;
use crate::fault::Fault;
use crate::lexer::TokenType;
use crate::scan::{lemma_lex, lemma_lex_skips_whitespace, lex, remaining, ws_end};

verus! {

/// A token of a stream: its type and the position of its first code point.
pub struct Lexeme {
    pub kind: TokenType,
    pub start: int,
}

/// How a stream ends: at the end of the text, or at a lexical fault.
pub enum Ending {
    /// The tokenizer reached the end of the text, at position `at`.
    End { at: int },
    /// The tokenizer met `fault` in the token that would have come next.
    Stopped { fault: Fault },
}

/// The tokens that are left of a text, the current one first, and what comes
/// after the last of them. `EOF` is not among the tokens: it is what a stream
/// without tokens shows that ends at the end of the text.
pub struct Stream {
    pub tokens: Seq<Lexeme>,
    pub ending: Ending,
}

impl Stream {
    /// The type of the current token: `EOF` when no token is left before the
    /// end of the text, and `NONE` when none is left before a fault.
    pub open spec fn kind(self) -> TokenType {
        if self.tokens.len() > 0 {
            self.tokens[0].kind
        } else {
            match self.ending {
                Ending::End { .. } => TokenType::EOF,
                Ending::Stopped { .. } => TokenType::NONE,
            }
        }
    }

    /// The position at which the current token starts.
    pub open spec fn start(self) -> int {
        if self.tokens.len() > 0 {
            self.tokens[0].start
        } else {
            match self.ending {
                Ending::End { at } => at,
                Ending::Stopped { fault } => fault.at(),
            }
        }
    }

    /// Whether the stream has a current token. One that starts with a fault
    /// has none.
    pub open spec fn live(self) -> bool {
        self.tokens.len() > 0 || self.ending is End
    }

    /// The fault that stands in place of the stream's first token, if one
    /// does.
    pub open spec fn opening_fault(self) -> Option<Fault> {
        match self.ending {
            Ending::Stopped { fault } if self.tokens.len() == 0 => Some(fault),
            _ => None,
        }
    }

    /// The fault that fetching the token behind the current one raises, if
    /// it raises one.
    pub open spec fn fetch_fault(self) -> Option<Fault> {
        match self.ending {
            Ending::Stopped { fault } if self.tokens.len() == 1 => Some(fault),
            _ => None,
        }
    }

    /// The stream behind its first `n` tokens.
    pub open spec fn skip(self, n: nat) -> Stream {
        if n <= self.tokens.len() {
            Stream { tokens: self.tokens.skip(n as int), ending: self.ending }
        } else {
            Stream { tokens: Seq::empty(), ending: self.ending }
        }
    }

    /// Whether the stream is one that a text can have: none of its tokens is
    /// `EOF` or `NONE`, each starts inside the text `s`, at or behind
    /// position `pos`, and the stream ends at the end of `s` or at a lexical
    /// fault at or behind `pos`.
    pub open spec fn within(self, s: Seq<char>, pos: int) -> bool {
        &&& forall|i: int|
            0 <= i < self.tokens.len() ==> {
                &&& (#[trigger] self.tokens[i]).kind != TokenType::EOF
                &&& self.tokens[i].kind != TokenType::NONE
                &&& pos <= self.tokens[i].start < s.len()
            }
        &&& match self.ending {
            Ending::End { at } => at == s.len(),
            Ending::Stopped { fault } => fault.lexical() && pos <= fault.at() <= s.len(),
        }
    }

    /// The types of the stream's tokens, in order.
    pub open spec fn kinds(self) -> Seq<TokenType> {
        self.tokens.map_values(|t: Lexeme| t.kind)
    }
}

/// The stream of `s` from `pos` on.
///
/// Each token is found behind the end of the one before. The stream ends
/// with the first `EOF`, or with the first fault.
pub open spec fn stream_from(s: Seq<char>, pos: int) -> Stream
    decreases remaining(s, pos),
    when 0 <= pos <= s.len() <= usize::MAX
    via stream_from_decreases
{
    match lex(s, pos) {
        Err(fault) => Stream { tokens: Seq::empty(), ending: Ending::Stopped { fault } },
        Ok(sc) => {
            if sc.kind == TokenType::EOF {
                Stream { tokens: Seq::empty(), ending: Ending::End { at: sc.start } }
            } else {
                let rest = stream_from(s, sc.end);
                Stream {
                    tokens: seq![Lexeme { kind: sc.kind, start: sc.start }] + rest.tokens,
                    ending: rest.ending,
                }
            }
        },
    }
}

#[via_fn]
proof fn stream_from_decreases(s: Seq<char>, pos: int) {
    lemma_lex(s, pos);
}

/// Skipping no token leaves a stream as it is, and skipping twice skips the
/// sum.
pub proof fn lemma_skip(st: Stream, a: nat, b: nat)
    ensures
        st.skip(0) == st,
        st.skip(a).skip(b) == st.skip(a + b),
        st.skip(a).tokens.len() <= st.tokens.len(),
        st.skip(a).ending == st.ending,
{
    assert(st.skip(0).tokens =~= st.tokens);
    assert(st.skip(a).skip(b).tokens =~= st.skip(a + b).tokens);
}

/// How a stream starts, by what the tokenizer returns at its start.
///
/// A fault there stands in place of the first token. `EOF` leaves the
/// stream without tokens. Any other token is the stream's first, and the
/// stream behind it is the one from where the token ends.
pub proof fn lemma_stream_head(s: Seq<char>, pos: int)
    requires
        0 <= pos <= s.len() <= usize::MAX,
    ensures
        ({
            let st = stream_from(s, pos);
            match lex(s, pos) {
                Err(f) => st.opening_fault() == Some(f) && !st.live(),
                Ok(sc) => {
                    &&& st.live()
                    &&& st.opening_fault() is None
                    &&& st.kind() == sc.kind
                    &&& st.start() == sc.start
                    &&& sc.kind == TokenType::EOF ==> st.tokens.len() == 0
                    &&& sc.kind != TokenType::EOF ==> st.tokens.len() > 0 && st.skip(1)
                        == stream_from(s, sc.end)
                },
            }
        }),
{
    let st = stream_from(s, pos);
    lemma_lex(s, pos);
    match lex(s, pos) {
        Err(_) => {},
        Ok(sc) => {
            if sc.kind != TokenType::EOF {
                let rest = stream_from(s, sc.end);
                assert(st.skip(1).tokens =~= rest.tokens);
            }
        },
    }
}

/// The stream of a text from a position on holds no `EOF` and no `NONE`. Its
/// tokens start inside the text, at or behind the position, and it ends at
/// the end of the text or at a lexical fault.
pub proof fn lemma_stream_within(s: Seq<char>, pos: int)
    requires
        0 <= pos <= s.len() <= usize::MAX,
    ensures
        stream_from(s, pos).within(s, pos),
    decreases remaining(s, pos),
{
    lemma_lex(s, pos);
    match lex(s, pos) {
        Err(_) => {},
        Ok(sc) => {
            if sc.kind != TokenType::EOF {
                lemma_stream_within(s, sc.end);
                let st = stream_from(s, pos);
                let rest = stream_from(s, sc.end);
                assert forall|i: int| 0 <= i < st.tokens.len() implies {
                    &&& (#[trigger] st.tokens[i]).kind != TokenType::EOF
                    &&& st.tokens[i].kind != TokenType::NONE
                    &&& pos <= st.tokens[i].start < s.len()
                } by {
                    if i > 0 {
                        assert(st.tokens[i] == rest.tokens[i - 1]);
                    }
                }
            }
        },
    }
}

/// Whitespace before a stream's first token does not change the stream.
pub proof fn lemma_stream_skips_whitespace(s: Seq<char>, pos: int)
    requires
        0 <= pos <= s.len() <= usize::MAX,
    ensures
        stream_from(s, ws_end(s, pos)) == stream_from(s, pos),
{
    lemma_lex_skips_whitespace(s, pos);
    lemma_lex(s, pos);
}

} // verus!
