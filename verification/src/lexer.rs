//! The tokenizer.
//!
//! A [`Lexer`] owns the text and a cursor into it, and hands out one token
//! per call. It looks at each code point once.

use vstd::prelude::*;
use vstd::std_specs::iter::IteratorSpec;
use vstd::string::{axiom_spec_iter, next_postcondition};
use crate::classes::{control, digit, escapable, hex_digit, whitespace};
use crate::fault::Fault;
use crate::scan::{
    digit_run_outcome, digits_end, false_word, hex_fault, hex_outcome, holds, holds_digit,
    holds_whitespace, lemma_lex, lemma_string, lex, null_word, number_outcome, string_outcome,
    true_word, word_outcome, ws_end, Scanned,
};

verus! {

/// The types of token that a document is made of.
#[allow(non_camel_case_types)]
#[derive(Clone, Copy, Debug, PartialEq, Eq, Structural)]
pub enum TokenType {
    /// `{`
    OPBR,
    /// `}`
    CLBR,
    /// `[`
    OPSQ,
    /// `]`
    CLSQ,
    /// `,`
    COMMA,
    /// A string in double quotes.
    STRING,
    /// A number: `1`, `1.0`, `1e+1`, `-1`.
    NUMBER,
    /// `true`
    TRUE,
    /// `false`
    FALSE,
    /// `null`
    NULL,
    /// `:`
    COLON,
    /// The end of the text.
    EOF,
    /// No token: what a checker holds before it has fetched its first one.
    /// The tokenizer never returns it.
    NONE,
}

/// A token. It carries its type and nothing of the text it was read from.
#[derive(Clone, Copy, Debug, PartialEq, Eq, Structural)]
pub struct Token {
    pub ttype: TokenType,
}

/// What a [`Lexer`] stands for: the text and the position in it that the
/// tokenizer has reached. Positions count code points.
pub struct Cursor {
    pub text: Seq<char>,
    pub pos: int,
}

impl Cursor {
    /// The code point under the cursor: none at the end of the text.
    pub open spec fn current(self) -> Option<char> {
        if 0 <= self.pos < self.text.len() {
            Some(self.text[self.pos])
        } else {
            None
        }
    }

    /// The code point behind the one under the cursor.
    pub open spec fn next(self) -> Option<char> {
        if 0 <= self.pos + 1 < self.text.len() {
            Some(self.text[self.pos + 1])
        } else {
            None
        }
    }

    /// The cursor one code point further on: unmoved at the end of the text.
    pub open spec fn step(self) -> Cursor {
        if self.pos < self.text.len() {
            Cursor { text: self.text, pos: self.pos + 1 }
        } else {
            self
        }
    }

    /// Whether `after` and `r` are what a scan from this cursor leaves that
    /// has the given outcome: the same text, a cursor that has not moved
    /// back, and either success with the cursor at the end that the outcome
    /// gives, or the outcome's fault with the cursor where the fault was
    /// detected.
    pub open spec fn scans_to(self, after: Cursor, r: Result<(), Fault>, outcome: Result<int, Fault>) -> bool {
        &&& after.text == self.text
        &&& after.pos >= self.pos
        &&& match outcome {
            Ok(end) => r is Ok && after.pos == end,
            Err(f) => r == Err::<(), Fault>(f) && after.pos == f.at(),
        }
    }

    /// Whether `after` and `r` are what the scan of one token from this
    /// cursor leaves that has the given outcome.
    pub open spec fn yields(self, after: Cursor, r: Result<Token, Fault>, outcome: Result<Scanned, Fault>) -> bool {
        &&& after.text == self.text
        &&& after.pos >= self.pos
        &&& match outcome {
            Ok(sc) => r == Ok::<Token, Fault>(Token { ttype: sc.kind }) && after.pos == sc.end,
            Err(f) => r == Err::<Token, Fault>(f) && after.pos == f.at(),
        }
    }
}

/// The tokenizer: a text and a cursor that moves forward through it.
pub struct Lexer {
    input: Vec<char>,
    pos: usize,
    current_char: Option<char>,
}

impl View for Lexer {
    type V = Cursor;

    closed spec fn view(&self) -> Cursor {
        Cursor { text: self.input@, pos: self.pos as int }
    }
}

impl Lexer {
    /// The tokenizer's invariant: the cursor lies inside the text or at its
    /// end, and the code point kept at hand is the one under the cursor.
    pub closed spec fn wf(&self) -> bool {
        &&& self.pos <= self.input.len()
        &&& self.current_char == self@.current()
    }

    /// A well-formed tokenizer's cursor lies inside the text or at its end.
    pub proof fn lemma_cursor_in_text(&self)
        requires
            self.wf(),
        ensures
            0 <= self@.pos <= self@.text.len() <= usize::MAX,
    {
    }

    /// Makes a tokenizer for `input`, with the cursor on its first code
    /// point.
    pub fn new(input: &String) -> (lexer: Lexer)
        ensures
            lexer.wf(),
            lexer@.text == input@,
            lexer@.pos == 0,
    {
        Lexer::over(input.as_str())
    }

    /// Makes a tokenizer for the text of a string slice, with the cursor on
    /// its first code point.
    pub fn over(input: &str) -> (lexer: Lexer)
        ensures
            lexer.wf(),
            lexer@.text == input@,
            lexer@.pos == 0,
    {
        broadcast use {axiom_spec_iter, next_postcondition};

        let mut chars: Vec<char> = Vec::new();
        let mut it = input.chars();
        loop
            invariant
                it.obeys_prophetic_iter_laws(),
                it.decrease() is Some,
                chars@ + it.remaining() == input@,
            ensures
                chars@ == input@,
            decreases it.decrease()->0,
        {
            let ghost before = it.remaining();
            match it.next() {
                Some(c) => {
                    chars.push(c);
                    assert(chars@ + it.remaining() =~= input@) by {
                        assert(before =~= seq![c] + before.drop_first());
                    }
                },
                None => {
                    assert(chars@ =~= chars@ + before);
                    break ;
                },
            }
        }
        let current_char = if chars.len() > 0 {
            Some(chars[0])
        } else {
            None
        };
        Lexer { input: chars, pos: 0, current_char }
    }

    /// Returns the cursor's position, in code points from the start of the
    /// text.
    pub fn pos(&self) -> (p: usize)
        ensures
            p == self@.pos,
    {
        self.pos
    }

    /// Tells whether the code point under the cursor is `c`.
    fn at(&self, c: char) -> (r: bool)
        requires
            self.wf(),
        ensures
            r == holds(self@.text, self@.pos, c),
    {
        match self.current_char {
            Some(d) => d == c,
            None => false,
        }
    }

    /// Tells whether the code point under the cursor is a decimal digit.
    fn at_digit(&self) -> (r: bool)
        requires
            self.wf(),
        ensures
            r == holds_digit(self@.text, self@.pos),
    {
        match self.current_char {
            Some(d) => digit(d),
            None => false,
        }
    }

    /// Tells whether the code point under the cursor is whitespace.
    fn at_whitespace(&self) -> (r: bool)
        requires
            self.wf(),
        ensures
            r == holds_whitespace(self@.text, self@.pos),
    {
        match self.current_char {
            Some(d) => whitespace(d),
            None => false,
        }
    }

    /// Moves the cursor to the next code point. At the end of the text it
    /// stays where it is.
    pub fn advance(&mut self)
        requires
            old(self).wf(),
        ensures
            final(self).wf(),
            final(self)@ == old(self)@.step(),
    {
        if self.pos < self.input.len() {
            self.pos += 1;
            self.current_char = if self.pos < self.input.len() {
                Some(self.input[self.pos])
            } else {
                None
            };
        }
    }

    /// Returns the code point behind the one under the cursor, without
    /// moving.
    pub fn peek(&self) -> (c: Option<char>)
        requires
            self.wf(),
        ensures
            c == self@.next(),
    {
        if self.pos < self.input.len() && self.pos + 1 < self.input.len() {
            Some(self.input[self.pos + 1])
        } else {
            None
        }
    }

    /// Moves the cursor past the whitespace it stands on.
    pub fn skip_whitespace(&mut self)
        requires
            old(self).wf(),
        ensures
            final(self).wf(),
            final(self)@.text == old(self)@.text,
            final(self)@.pos == ws_end(old(self)@.text, old(self)@.pos),
            final(self)@.pos >= old(self)@.pos,
    {
        while self.at_whitespace()
            invariant
                self.wf(),
                self@.text == old(self)@.text,
                self@.pos >= old(self)@.pos,
                ws_end(self@.text, self@.pos) == ws_end(old(self)@.text, old(self)@.pos),
            decreases self@.text.len() - self@.pos,
        {
            self.advance();
        }
    }

    /// Moves the cursor past the decimal digits it stands on.
    fn skip_digits(&mut self)
        requires
            old(self).wf(),
        ensures
            final(self).wf(),
            final(self)@.text == old(self)@.text,
            final(self)@.pos == digits_end(old(self)@.text, old(self)@.pos),
            final(self)@.pos >= old(self)@.pos,
    {
        while self.at_digit()
            invariant
                self.wf(),
                self@.text == old(self)@.text,
                self@.pos >= old(self)@.pos,
                digits_end(self@.text, self@.pos) == digits_end(old(self)@.text, old(self)@.pos),
            decreases self@.text.len() - self@.pos,
        {
            self.advance();
        }
    }

    /// Scans a run of digits, and the fraction behind it if a decimal point
    /// follows. With `exponent` set, a point is a fault.
    pub fn loop_digits(&mut self, exponent: bool) -> (r: Result<(), Fault>)
        requires
            old(self).wf(),
        ensures
            final(self).wf(),
            old(self)@.scans_to(
                final(self)@,
                r,
                digit_run_outcome(old(self)@.text, old(self)@.pos, exponent),
            ),
    {
        self.skip_digits();
        if !self.at('.') {
            return Ok(());
        }
        if exponent {
            return Err(Fault::InvalidNumber { position: self.pos });
        }
        self.advance();
        if !self.at_digit() {
            return Err(Fault::InvalidNumber { position: self.pos });
        }
        self.skip_digits();
        if self.at('.') {
            return Err(Fault::InvalidNumber { position: self.pos });
        }
        Ok(())
    }

    /// Scans a number: an optional minus sign, digits, an optional fraction
    /// and an optional exponent.
    pub fn number(&mut self) -> (r: Result<(), Fault>)
        requires
            old(self).wf(),
        ensures
            final(self).wf(),
            old(self)@.scans_to(final(self)@, r, number_outcome(old(self)@.text, old(self)@.pos)),
    {
        if self.at('-') {
            self.advance();
        }
        if !self.at_digit() {
            return Err(Fault::InvalidNumber { position: self.pos });
        }
        match self.loop_digits(false) {
            Err(f) => {
                return Err(f);
            },
            Ok(()) => {},
        }
        if self.at('e') || self.at('E') {
            self.advance();
            if self.at('+') || self.at('-') {
                self.advance();
            }
            if !self.at_digit() {
                return Err(Fault::InvalidNumber { position: self.pos });
            }
            self.loop_digits(true)
        } else {
            Ok(())
        }
    }

    /// Scans the four hexadecimal digits of a `\u` escape.
    pub fn hex_num(&mut self) -> (r: Result<(), Fault>)
        requires
            old(self).wf(),
        ensures
            final(self).wf(),
            old(self)@.scans_to(final(self)@, r, hex_outcome(old(self)@.text, old(self)@.pos)),
    {
        let mut left: u8 = 4;
        while left > 0
            invariant
                self.wf(),
                self@.text == old(self)@.text,
                self@.pos >= old(self)@.pos,
                left <= 4,
                self@.pos == old(self)@.pos + (4 - left),
                hex_fault(self@.text, self@.pos, left as nat) == hex_fault(
                    old(self)@.text,
                    old(self)@.pos,
                    4,
                ),
            decreases left,
        {
            match self.current_char {
                None => {
                    return Err(Fault::UnterminatedString { position: self.pos });
                },
                Some(c) => {
                    if !hex_digit(c) {
                        return Err(Fault::InvalidHexEscape { position: self.pos });
                    }
                    self.advance();
                },
            }
            left -= 1;
        }
        Ok(())
    }

    /// Scans the inside of a string up to its closing quote, on which the
    /// cursor is left.
    pub fn string(&mut self) -> (r: Result<(), Fault>)
        requires
            old(self).wf(),
        ensures
            final(self).wf(),
            old(self)@.scans_to(final(self)@, r, string_outcome(old(self)@.text, old(self)@.pos)),
    {
        loop
            invariant
                self.wf(),
                self@.text == old(self)@.text,
                self@.pos >= old(self)@.pos,
                string_outcome(self@.text, self@.pos) == string_outcome(
                    old(self)@.text,
                    old(self)@.pos,
                ),
            decreases self@.text.len() - self@.pos,
        {
            match self.current_char {
                None => {
                    return Err(Fault::UnterminatedString { position: self.pos });
                },
                Some(c) => {
                    if c == '"' {
                        return Ok(());
                    } else if c == '\\' {
                        let escaped = self.peek();
                        self.advance();
                        match escaped {
                            None => {
                                return Err(Fault::UnterminatedString { position: self.pos });
                            },
                            Some(e) => {
                                if e == 'u' {
                                    self.advance();
                                    match self.hex_num() {
                                        Err(f) => {
                                            return Err(f);
                                        },
                                        Ok(()) => {},
                                    }
                                } else if escapable(e) {
                                    self.advance();
                                } else {
                                    return Err(Fault::InvalidEscape { position: self.pos });
                                }
                            },
                        }
                    } else if control(c) {
                        return Err(Fault::UnterminatedString { position: self.pos });
                    } else {
                        self.advance();
                    }
                },
            }
        }
    }

    /// Scans the code points of `str_check`.
    pub fn string_check(&mut self, str_check: &str) -> (r: Result<(), Fault>)
        requires
            old(self).wf(),
        ensures
            final(self).wf(),
            old(self)@.scans_to(
                final(self)@,
                r,
                word_outcome(old(self)@.text, old(self)@.pos, str_check@),
            ),
    {
        broadcast use {axiom_spec_iter, next_postcondition};

        let mut it = str_check.chars();
        loop
            invariant
                self.wf(),
                self@.text == old(self)@.text,
                self@.pos >= old(self)@.pos,
                it.obeys_prophetic_iter_laws(),
                it.decrease() is Some,
                word_outcome(self@.text, self@.pos, it.remaining()) == word_outcome(
                    old(self)@.text,
                    old(self)@.pos,
                    str_check@,
                ),
            decreases it.decrease()->0,
        {
            match it.next() {
                None => {
                    return Ok(());
                },
                Some(w) => {
                    if !self.at(w) {
                        return Err(Fault::InvalidLiteral { position: self.pos });
                    }
                    self.advance();
                },
            }
        }
    }

    /// Returns the next token and moves the cursor behind it.
    ///
    /// Whitespace before the token is passed over. At the end of the text
    /// the token is `EOF`, in this call and in every later one. A fault
    /// leaves the cursor where it was detected.
    pub fn get_next_token(&mut self) -> (r: Result<Token, Fault>)
        requires
            old(self).wf(),
        ensures
            final(self).wf(),
            old(self)@.yields(final(self)@, r, lex(old(self)@.text, old(self)@.pos)),
            r matches Ok(t) ==> t.ttype != TokenType::NONE,
            r matches Err(f) ==> f.lexical(),
    {
        proof {
            lemma_lex(self@.text, self@.pos);
        }
        self.skip_whitespace();
        let c = match self.current_char {
            None => {
                return Ok(Token { ttype: TokenType::EOF });
            },
            Some(c) => c,
        };
        if digit(c) || c == '-' {
            match self.number() {
                Ok(()) => Ok(Token { ttype: TokenType::NUMBER }),
                Err(f) => Err(f),
            }
        } else if c == '{' {
            self.advance();
            Ok(Token { ttype: TokenType::OPBR })
        } else if c == '}' {
            self.advance();
            Ok(Token { ttype: TokenType::CLBR })
        } else if c == '[' {
            self.advance();
            Ok(Token { ttype: TokenType::OPSQ })
        } else if c == ']' {
            self.advance();
            Ok(Token { ttype: TokenType::CLSQ })
        } else if c == ':' {
            self.advance();
            Ok(Token { ttype: TokenType::COLON })
        } else if c == ',' {
            self.advance();
            Ok(Token { ttype: TokenType::COMMA })
        } else if c == '"' {
            self.advance();
            proof {
                lemma_string(self@.text, self@.pos);
            }
            match self.string() {
                Ok(()) => {
                    self.advance();
                    Ok(Token { ttype: TokenType::STRING })
                },
                Err(f) => Err(f),
            }
        } else if c == 't' {
            match self.ttrue() {
                Ok(()) => Ok(Token { ttype: TokenType::TRUE }),
                Err(f) => Err(f),
            }
        } else if c == 'f' {
            match self.tfalse() {
                Ok(()) => Ok(Token { ttype: TokenType::FALSE }),
                Err(f) => Err(f),
            }
        } else if c == 'n' {
            match self.tnull() {
                Ok(()) => Ok(Token { ttype: TokenType::NULL }),
                Err(f) => Err(f),
            }
        } else {
            Err(Fault::UnexpectedCharacter { character: c, position: self.pos })
        }
    }

    /// Scans the literal `true`.
    pub fn ttrue(&mut self) -> (r: Result<(), Fault>)
        requires
            old(self).wf(),
        ensures
            final(self).wf(),
            old(self)@.scans_to(
                final(self)@,
                r,
                word_outcome(old(self)@.text, old(self)@.pos, true_word()),
            ),
    {
        proof {
            reveal_strlit("true");
            assert("true"@ =~= true_word());
        }
        self.string_check("true")
    }

    /// Scans the literal `false`.
    pub fn tfalse(&mut self) -> (r: Result<(), Fault>)
        requires
            old(self).wf(),
        ensures
            final(self).wf(),
            old(self)@.scans_to(
                final(self)@,
                r,
                word_outcome(old(self)@.text, old(self)@.pos, false_word()),
            ),
    {
        proof {
            reveal_strlit("false");
            assert("false"@ =~= false_word());
        }
        self.string_check("false")
    }

    /// Scans the literal `null`.
    pub fn tnull(&mut self) -> (r: Result<(), Fault>)
        requires
            old(self).wf(),
        ensures
            final(self).wf(),
            old(self)@.scans_to(
                final(self)@,
                r,
                word_outcome(old(self)@.text, old(self)@.pos, null_word()),
            ),
    {
        proof {
            reveal_strlit("null");
            assert("null"@ =~= null_word());
        }
        self.string_check("null")
    }
}

} // verus!
