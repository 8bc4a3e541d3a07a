//! What the tokenizer reads, as functions of the text and a position.
//!
//! A text is a sequence of code points and a position is an index into it.
//! Each function here says where a piece of a token ends when scanning starts
//! at a given position, or which fault stops the scan. The tokenizer's
//! contracts are stated over them.

use vstd::prelude::*;
use crate::classes::{is_control, is_digit, is_escapable, is_hex_digit, is_whitespace};
use crate::fault::Fault;
use crate::lexer::TokenType;

verus! {

/// Whether position `pos` lies inside `s` and holds the code point `c`.
pub open spec fn holds(s: Seq<char>, pos: int, c: char) -> bool {
    0 <= pos < s.len() && s[pos] == c
}

/// Whether position `pos` lies inside `s` and holds a decimal digit.
pub open spec fn holds_digit(s: Seq<char>, pos: int) -> bool {
    0 <= pos < s.len() && is_digit(s[pos])
}

/// Whether position `pos` lies inside `s` and holds whitespace.
pub open spec fn holds_whitespace(s: Seq<char>, pos: int) -> bool {
    0 <= pos < s.len() && is_whitespace(s[pos])
}

/// The first position from `pos` on that holds no whitespace: the end of the
/// text if there is none.
pub open spec fn ws_end(s: Seq<char>, pos: int) -> int
    decreases s.len() - pos,
{
    if holds_whitespace(s, pos) {
        ws_end(s, pos + 1)
    } else {
        pos
    }
}

/// The first position from `pos` on that holds no decimal digit.
pub open spec fn digits_end(s: Seq<char>, pos: int) -> int
    decreases s.len() - pos,
{
    if holds_digit(s, pos) {
        digits_end(s, pos + 1)
    } else {
        pos
    }
}

/// A run of digits from `pos` on, with a fraction behind it if a decimal
/// point follows: where it ends, or the fault in it.
///
/// With `exponent` set the run is that of an exponent, where no point may
/// follow. Elsewhere a point must be followed by at least one digit, and no
/// second point may follow the fraction.
pub open spec fn digit_run_outcome(s: Seq<char>, pos: int, exponent: bool) -> Result<int, Fault> {
    let a = digits_end(s, pos);
    if !holds(s, a, '.') {
        Ok(a)
    } else if exponent {
        Err(Fault::InvalidNumber { position: a as usize })
    } else if !holds_digit(s, a + 1) {
        Err(Fault::InvalidNumber { position: (a + 1) as usize })
    } else {
        let b = digits_end(s, a + 1);
        if holds(s, b, '.') {
            Err(Fault::InvalidNumber { position: b as usize })
        } else {
            Ok(b)
        }
    }
}

/// A number that starts at `pos`: where it ends, or the fault in it.
///
/// A number is an optional minus sign, one or more digits, optionally a
/// point and one or more digits, and optionally an exponent: `e` or `E`, an
/// optional sign, and one or more digits.
pub open spec fn number_outcome(s: Seq<char>, pos: int) -> Result<int, Fault> {
    let a = if holds(s, pos, '-') { pos + 1 } else { pos };
    if !holds_digit(s, a) {
        Err(Fault::InvalidNumber { position: a as usize })
    } else {
        match digit_run_outcome(s, a, false) {
            Err(f) => Err(f),
            Ok(b) => {
                if holds(s, b, 'e') || holds(s, b, 'E') {
                    let c = if holds(s, b + 1, '+') || holds(s, b + 1, '-') { b + 2 } else { b + 1 };
                    if !holds_digit(s, c) {
                        Err(Fault::InvalidNumber { position: c as usize })
                    } else {
                        digit_run_outcome(s, c, true)
                    }
                } else {
                    Ok(b)
                }
            },
        }
    }
}

/// The fault among the `n` code points from `pos` on, which must all be
/// hexadecimal digits: the first that is missing or is none.
pub open spec fn hex_fault(s: Seq<char>, pos: int, n: nat) -> Option<Fault>
    decreases n,
{
    if n == 0 {
        None
    } else if !(0 <= pos < s.len()) {
        Some(Fault::UnterminatedString { position: s.len() as usize })
    } else if !is_hex_digit(s[pos]) {
        Some(Fault::InvalidHexEscape { position: pos as usize })
    } else {
        hex_fault(s, pos + 1, (n - 1) as nat)
    }
}

/// The four hexadecimal digits of a `\u` escape, from `pos` on: where they
/// end, or the fault among them.
pub open spec fn hex_outcome(s: Seq<char>, pos: int) -> Result<int, Fault> {
    match hex_fault(s, pos, 4) {
        Some(f) => Err(f),
        None => Ok(pos + 4),
    }
}

/// An escape whose backslash stands just before `pos`: where it ends, or the
/// fault in it.
///
/// The escaped code point must be one that can be escaped. After `u` four
/// hexadecimal digits must follow.
pub open spec fn escape_outcome(s: Seq<char>, pos: int) -> Result<int, Fault> {
    if !(0 <= pos < s.len()) {
        Err(Fault::UnterminatedString { position: s.len() as usize })
    } else if s[pos] == 'u' {
        hex_outcome(s, pos + 1)
    } else if is_escapable(s[pos]) {
        Ok(pos + 1)
    } else {
        Err(Fault::InvalidEscape { position: pos as usize })
    }
}

/// How many code points stand from `pos` to the end of `s`.
pub open spec fn remaining(s: Seq<char>, pos: int) -> nat {
    if pos <= s.len() {
        (s.len() - pos) as nat
    } else {
        0
    }
}

/// The inside of a string, from `pos` on: the position of its closing quote,
/// or the fault before it.
///
/// A raw control character, like the end of the text, leaves the string
/// without its closing quote.
pub open spec fn string_outcome(s: Seq<char>, pos: int) -> Result<int, Fault>
    decreases remaining(s, pos),
{
    if !(0 <= pos < s.len()) {
        Err(Fault::UnterminatedString { position: s.len() as usize })
    } else if s[pos] == '"' {
        Ok(pos)
    } else if s[pos] == '\\' {
        match escape_outcome(s, pos + 1) {
            Err(f) => Err(f),
            Ok(p) => string_outcome(s, p),
        }
    } else if is_control(s[pos]) {
        Err(Fault::UnterminatedString { position: pos as usize })
    } else {
        string_outcome(s, pos + 1)
    }
}

/// The code points of `word`, looked for from `pos` on: where they end, or
/// the fault at the first position that differs or is missing.
pub open spec fn word_outcome(s: Seq<char>, pos: int, word: Seq<char>) -> Result<int, Fault>
    decreases word.len(),
{
    if word.len() == 0 {
        Ok(pos)
    } else if holds(s, pos, word[0]) {
        word_outcome(s, pos + 1, word.drop_first())
    } else {
        Err(Fault::InvalidLiteral { position: pos as usize })
    }
}

/// The code points of `true`.
pub open spec fn true_word() -> Seq<char> {
    seq!['t', 'r', 'u', 'e']
}

/// The code points of `false`.
pub open spec fn false_word() -> Seq<char> {
    seq!['f', 'a', 'l', 's', 'e']
}

/// The code points of `null`.
pub open spec fn null_word() -> Seq<char> {
    seq!['n', 'u', 'l', 'l']
}

/// A token as the tokenizer finds it: its type, the position of its first
/// code point and the position after its last.
pub struct Scanned {
    pub kind: TokenType,
    pub start: int,
    pub end: int,
}

/// A token of type `kind` from `start` to the end that `outcome` gives, or the
/// fault that `outcome` gives.
pub open spec fn scanned(kind: TokenType, start: int, outcome: Result<int, Fault>) -> Result<
    Scanned,
    Fault,
> {
    match outcome {
        Ok(end) => Ok(Scanned { kind, start, end }),
        Err(f) => Err(f),
    }
}

/// The next token of `s` from `pos` on, or the fault in it.
///
/// Whitespace before the token is passed over. What the token is follows
/// from its first code point. At the end of the text the token is
/// `EOF`, which starts and ends there.
pub open spec fn lex(s: Seq<char>, pos: int) -> Result<Scanned, Fault> {
    let p = ws_end(s, pos);
    if !(0 <= p < s.len()) {
        Ok(Scanned { kind: TokenType::EOF, start: p, end: p })
    } else {
        let c = s[p];
        if is_digit(c) || c == '-' {
            scanned(TokenType::NUMBER, p, number_outcome(s, p))
        } else if c == '{' {
            Ok(Scanned { kind: TokenType::OPBR, start: p, end: p + 1 })
        } else if c == '}' {
            Ok(Scanned { kind: TokenType::CLBR, start: p, end: p + 1 })
        } else if c == '[' {
            Ok(Scanned { kind: TokenType::OPSQ, start: p, end: p + 1 })
        } else if c == ']' {
            Ok(Scanned { kind: TokenType::CLSQ, start: p, end: p + 1 })
        } else if c == ':' {
            Ok(Scanned { kind: TokenType::COLON, start: p, end: p + 1 })
        } else if c == ',' {
            Ok(Scanned { kind: TokenType::COMMA, start: p, end: p + 1 })
        } else if c == '"' {
            match string_outcome(s, p + 1) {
                Ok(q) => Ok(Scanned { kind: TokenType::STRING, start: p, end: q + 1 }),
                Err(f) => Err(f),
            }
        } else if c == 't' {
            scanned(TokenType::TRUE, p, word_outcome(s, p, true_word()))
        } else if c == 'f' {
            scanned(TokenType::FALSE, p, word_outcome(s, p, false_word()))
        } else if c == 'n' {
            scanned(TokenType::NULL, p, word_outcome(s, p, null_word()))
        } else {
            Err(Fault::UnexpectedCharacter { character: c, position: p as usize })
        }
    }
}

/// The whitespace from `pos` on ends at or behind `pos` and inside the text,
/// on a position that holds none; from there on there is none to pass.
pub proof fn lemma_ws_end(s: Seq<char>, pos: int)
    requires
        0 <= pos <= s.len(),
    ensures
        pos <= ws_end(s, pos) <= s.len(),
        !holds_whitespace(s, ws_end(s, pos)),
        ws_end(s, ws_end(s, pos)) == ws_end(s, pos),
    decreases s.len() - pos,
{
    if holds_whitespace(s, pos) {
        lemma_ws_end(s, pos + 1);
    }
}

/// The digits from `pos` on end at or behind `pos` and inside the text, on a
/// position that holds none.
pub proof fn lemma_digits_end(s: Seq<char>, pos: int)
    requires
        0 <= pos <= s.len(),
    ensures
        pos <= digits_end(s, pos) <= s.len(),
        !holds_digit(s, digits_end(s, pos)),
    decreases s.len() - pos,
{
    if holds_digit(s, pos) {
        lemma_digits_end(s, pos + 1);
    }
}

/// A run of digits ends at or behind its start, and a fault in it lies
/// there too; both lie inside the text or at its end.
pub proof fn lemma_digit_run(s: Seq<char>, pos: int, exponent: bool)
    requires
        0 <= pos <= s.len() <= usize::MAX,
    ensures
        match digit_run_outcome(s, pos, exponent) {
            Ok(end) => pos <= digits_end(s, pos) <= end <= s.len(),
            Err(f) => pos <= f.at() <= s.len() && f is InvalidNumber,
        },
{
    let a = digits_end(s, pos);
    lemma_digits_end(s, pos);
    if holds(s, a, '.') {
        lemma_digits_end(s, a + 1);
    }
}

/// A number takes up at least one code point, and a fault in it lies at or
/// behind its start; both lie inside the text or at its end.
pub proof fn lemma_number(s: Seq<char>, pos: int)
    requires
        0 <= pos <= s.len() <= usize::MAX,
    ensures
        match number_outcome(s, pos) {
            Ok(end) => pos < end <= s.len(),
            Err(f) => pos <= f.at() <= s.len() && f is InvalidNumber,
        },
{
    let a = if holds(s, pos, '-') { pos + 1 } else { pos };
    if holds_digit(s, a) {
        lemma_digit_run(s, a, false);
        lemma_digits_end(s, a + 1);
        match digit_run_outcome(s, a, false) {
            Ok(b) => {
                if holds(s, b, 'e') || holds(s, b, 'E') {
                    let c = if holds(s, b + 1, '+') || holds(s, b + 1, '-') { b + 2 } else { b + 1 };
                    if holds_digit(s, c) {
                        lemma_digit_run(s, c, true);
                    }
                }
            },
            Err(_) => {},
        }
    }
}

/// Hexadecimal digits that are found to be `n` lie inside the text, and a
/// fault among them lies at or behind their start.
pub proof fn lemma_hex(s: Seq<char>, pos: int, n: nat)
    requires
        0 <= pos <= s.len() <= usize::MAX,
    ensures
        match hex_fault(s, pos, n) {
            None => pos + n <= s.len(),
            Some(f) => pos <= f.at() <= s.len() && (f is UnterminatedString || f is InvalidHexEscape),
        },
    decreases n,
{
    if n > 0 && pos < s.len() && is_hex_digit(s[pos]) {
        lemma_hex(s, pos + 1, (n - 1) as nat);
    }
}

/// An escape takes up at least one code point, and a fault in it lies at or
/// behind its start; both lie inside the text or at its end.
pub proof fn lemma_escape(s: Seq<char>, pos: int)
    requires
        0 <= pos <= s.len() <= usize::MAX,
    ensures
        match escape_outcome(s, pos) {
            Ok(end) => pos < end <= s.len(),
            Err(f) => pos <= f.at() <= s.len() && (f is UnterminatedString || f is InvalidHexEscape
                || f is InvalidEscape),
        },
{
    if pos < s.len() && s[pos] == 'u' {
        lemma_hex(s, pos + 1, 4);
    }
}

/// The inside of a string ends on a quote, at or behind its start, and a
/// fault in it lies there too, inside the text or at its end.
pub proof fn lemma_string(s: Seq<char>, pos: int)
    requires
        0 <= pos <= s.len() <= usize::MAX,
    ensures
        match string_outcome(s, pos) {
            Ok(end) => pos <= end && holds(s, end, '"'),
            Err(f) => pos <= f.at() <= s.len() && (f is UnterminatedString || f is InvalidHexEscape
                || f is InvalidEscape),
        },
    decreases remaining(s, pos),
{
    if pos < s.len() && s[pos] != '"' {
        if s[pos] == '\\' {
            lemma_escape(s, pos + 1);
            match escape_outcome(s, pos + 1) {
                Ok(p) => {
                    lemma_string(s, p);
                },
                Err(_) => {},
            }
        } else if !is_control(s[pos]) {
            lemma_string(s, pos + 1);
        }
    }
}

/// A word that is found takes up as many code points as it has, and a fault
/// in it lies at or behind its start; both lie inside the text or at its end.
pub proof fn lemma_word(s: Seq<char>, pos: int, word: Seq<char>)
    requires
        0 <= pos <= s.len() <= usize::MAX,
    ensures
        match word_outcome(s, pos, word) {
            Ok(end) => end == pos + word.len() && end <= s.len(),
            Err(f) => pos <= f.at() <= s.len() && f is InvalidLiteral,
        },
    decreases word.len(),
{
    if word.len() > 0 && holds(s, pos, word[0]) {
        lemma_word(s, pos + 1, word.drop_first());
    }
}

/// What the tokenizer can return from a position of the text.
///
/// A token starts at or behind the position, behind any whitespace, and ends
/// inside the text or at its end. Its type is never `NONE`. `EOF` is empty
/// and stands at the end of the text; every other token takes up at least
/// one code point. A fault is lexical and lies at or behind the position.
pub proof fn lemma_lex(s: Seq<char>, pos: int)
    requires
        0 <= pos <= s.len() <= usize::MAX,
    ensures
        match lex(s, pos) {
            Ok(sc) => {
                &&& sc.start == ws_end(s, pos)
                &&& pos <= sc.start <= sc.end <= s.len()
                &&& sc.kind != TokenType::NONE
                &&& sc.kind == TokenType::EOF <==> sc.start == s.len()
                &&& sc.kind == TokenType::EOF <==> sc.start == sc.end
            },
            Err(f) => pos <= f.at() <= s.len() && f.lexical(),
        },
{
    let p = ws_end(s, pos);
    lemma_ws_end(s, pos);
    if p < s.len() {
        lemma_number(s, p);
        lemma_string(s, p + 1);
        lemma_word(s, p, true_word());
        lemma_word(s, p, false_word());
        lemma_word(s, p, null_word());
    }
}

/// Whitespace before a token does not change it: the tokenizer returns the
/// same from a position and from the end of the whitespace there.
pub proof fn lemma_lex_skips_whitespace(s: Seq<char>, pos: int)
    requires
        0 <= pos <= s.len() <= usize::MAX,
    ensures
        lex(s, ws_end(s, pos)) == lex(s, pos),
{
    lemma_ws_end(s, pos);
}

/// Once the tokenizer has returned `EOF` it returns `EOF` from there on: the
/// end of the text is all that is left.
pub proof fn lemma_eof_is_final(s: Seq<char>, pos: int)
    requires
        0 <= pos <= s.len() <= usize::MAX,
        lex(s, pos) is Ok,
        lex(s, pos)->Ok_0.kind == TokenType::EOF,
    ensures
        lex(s, lex(s, pos)->Ok_0.end) == lex(s, pos),
{
    lemma_lex(s, pos);
    lemma_ws_end(s, pos);
}

} // verus!
